//! A backend for llama models, each in a task of its own.

use vstd::prelude::*;
use crate::protocol::{ModelDescription, ProtocolErrorType};
use crate::text::concat;

verus! {

/// What can go wrong with a model. Errors of other libraries are carried as their text.
#[derive(Debug)]
pub enum LlamaError {
    ModelDescriptionParse,
    WeightsNotFound,
    RequestCannotSend,
    ModelLoad(String),
    InferenceParametersDeserialize(String),
    Inference(String),
    UserHomeNotFound,
}

impl LlamaError {
    /// Whose fault the error is.
    pub open spec fn spec_error_type(self) -> ProtocolErrorType {
        match self {
            LlamaError::ModelDescriptionParse => ProtocolErrorType::BadRequest,
            LlamaError::WeightsNotFound => ProtocolErrorType::BadRequest,
            LlamaError::InferenceParametersDeserialize(_) => ProtocolErrorType::BadRequest,
            _ => ProtocolErrorType::Internal,
        }
    }

    /// Whose fault the error is.
    pub fn error_type(&self) -> (r: ProtocolErrorType)
        ensures
            r == self.spec_error_type(),
    {
        match self {
            LlamaError::ModelDescriptionParse => ProtocolErrorType::BadRequest,
            LlamaError::WeightsNotFound => ProtocolErrorType::BadRequest,
            LlamaError::RequestCannotSend => ProtocolErrorType::Internal,
            LlamaError::ModelLoad(_) => ProtocolErrorType::Internal,
            LlamaError::InferenceParametersDeserialize(_) => ProtocolErrorType::BadRequest,
            LlamaError::Inference(_) => ProtocolErrorType::Internal,
            LlamaError::UserHomeNotFound => ProtocolErrorType::Internal,
        }
    }

    /// The error in words.
    pub open spec fn spec_message(self) -> Seq<char> {
        match self {
            LlamaError::ModelDescriptionParse => "failed to parse model name"@,
            LlamaError::WeightsNotFound => "model weights not found"@,
            LlamaError::RequestCannotSend =>
                "failed to send backend request to llama, model task may have crashed"@,
            LlamaError::ModelLoad(e) => "failed to load model weights: "@ + e@,
            LlamaError::InferenceParametersDeserialize(e) =>
                "failed to deserialize inference parameters: "@ + e@,
            LlamaError::Inference(e) => "inference failed: "@ + e@,
            LlamaError::UserHomeNotFound => "unable to load app data, could not find user home folder"@,
        }
    }

    /// The error in words.
    pub fn message(&self) -> (r: String)
        ensures
            r@ == self.spec_message(),
    {
        match self {
            LlamaError::ModelDescriptionParse => "failed to parse model name".to_owned(),
            LlamaError::WeightsNotFound => "model weights not found".to_owned(),
            LlamaError::RequestCannotSend =>
                "failed to send backend request to llama, model task may have crashed".to_owned(),
            LlamaError::ModelLoad(e) => concat("failed to load model weights: ", e.as_str()),
            LlamaError::InferenceParametersDeserialize(e) => concat(
                "failed to deserialize inference parameters: ",
                e.as_str(),
            ),
            LlamaError::Inference(e) => concat("inference failed: ", e.as_str()),
            LlamaError::UserHomeNotFound =>
                "unable to load app data, could not find user home folder".to_owned(),
        }
    }
}

/// Whether a request can go to the task of its model. The description is that of the model that the
/// request names, if the name can be read.
pub fn find_task(model_description: &Option<ModelDescription>, has_task: bool) -> (r: Result<
    (),
    LlamaError,
>)
    ensures
        if *model_description is None {
            r == Err::<(), _>(LlamaError::ModelDescriptionParse)
        } else if has_task {
            r is Ok
        } else {
            r == Err::<(), _>(LlamaError::WeightsNotFound)
        },
{
    if model_description.is_none() {
        Err(LlamaError::ModelDescriptionParse)
    } else if has_task {
        Ok(())
    } else {
        Err(LlamaError::WeightsNotFound)
    }
}

// ---------------------------------------------------------------------------------------------
// Laws.


/// Weights are only looked for under the description of a model, and a task is there exactly where both
/// are found.
pub proof fn law_task_needs_a_model_and_its_weights(
    model_description: Option<ModelDescription>,
    has_task: bool,
    r: Result<(), LlamaError>,
)
    requires
        call_ensures(find_task, (&model_description, has_task), r),
    ensures
        r is Ok <==> model_description is Some && has_task,
        r == Err::<(), _>(LlamaError::WeightsNotFound) ==> model_description is Some,
        model_description is None ==> r == Err::<(), _>(LlamaError::ModelDescriptionParse),
        model_description is Some && !has_task ==> r == Err::<(), _>(LlamaError::WeightsNotFound),
{
}

} // verus!
