//! What can be done with a piece of code.

use vstd::prelude::*;

verus! {

/// What is done.
#[derive(Clone, Copy, Debug, PartialEq, Eq, Structural)]
pub enum ActionType {
    Complete,
}

/// Something that can be done with a model.
#[derive(Debug)]
pub struct Action {
    pub model: String,
    pub action_type: ActionType,
}

/// The things that can be done.
#[derive(Debug)]
pub struct ActionList {
    pub actions: Vec<Action>,
}

} // verus!
