use vstd::prelude::*;

use crate::error::{ErrorModel, PraetoreError, failure};
use crate::text::{blank, is_blank, opt_text};

verus! {

/// The operation being requested.
///
/// `parameters` holds the action's parameters as JSON text, in the compact
/// form that `serde_json` writes for a JSON value (objects with their keys in
/// sorted order); [`Action::new`] accepts only JSON and stores it in that
/// form, and evidence embeds it as it stands.
#[derive(Debug, Clone)]
pub struct Action {
    pub action_type: String,
    pub target: Option<String>,
    pub parameters: String,
}

/// Model of an [`Action`].
pub struct ActionModel {
    pub action_type: Seq<char>,
    pub target: Option<Seq<char>>,
    pub parameters: Seq<char>,
}

impl View for Action {
    type V = ActionModel;

    open spec fn view(&self) -> ActionModel {
        ActionModel {
            action_type: self.action_type@,
            target: opt_text(self.target),
            parameters: self.parameters@,
        }
    }
}

/// The rule an action breaks, if any: its type may not be blank.
pub open spec fn action_error(a: ActionModel) -> Option<ErrorModel> {
    if is_blank(a.action_type) {
        Some(ErrorModel::InvalidRequest("action type cannot be empty"@))
    } else {
        None
    }
}

/// The compact JSON text of the JSON value that `text` holds, as
/// `serde_json` parses it and writes it back, or `None` when `text` is not
/// JSON.
pub uninterp spec fn compact_json(text: Seq<char>) -> Option<Seq<char>>;

/// Parses `text` into a `serde_json::Value` with `serde_json::from_str` and
/// writes the value back with `to_string`, which writes compact JSON.
///
/// The contract names the result [`compact_json`]: it depends on the text
/// alone.
#[verifier::external_body]
fn compact_json_text(text: &str) -> (r: Option<String>)
    ensures
        opt_text(r) == compact_json(text@),
{
    match serde_json::from_str::<serde_json::Value>(text) {
        Ok(value) => Some(value.to_string()),
        Err(_) => None,
    }
}

/// The error building an action gives, if any: its type may not be blank,
/// and its parameters must be JSON.
pub open spec fn new_action_error(action_type: Seq<char>, parameters: Seq<char>) -> Option<
    ErrorModel,
> {
    if is_blank(action_type) {
        Some(ErrorModel::InvalidRequest("action type cannot be empty"@))
    } else if compact_json(parameters) is None {
        Some(ErrorModel::InvalidRequest("action parameters must be a JSON value"@))
    } else {
        None
    }
}

impl Action {
    /// Builds an action, with its parameters in compact JSON form; see
    /// [`new_action_error`].
    pub fn new(action_type: &str, target: Option<String>, parameters: String) -> (r: Result<
        Self,
        PraetoreError,
    >)
        ensures
            failure(r) == new_action_error(action_type@, parameters@),
            r matches Ok(a) ==> a@ == (ActionModel {
                action_type: action_type@,
                target: opt_text(target),
                parameters: compact_json(parameters@).unwrap(),
            }),
    {
        if blank(action_type) {
            return Err(PraetoreError::InvalidRequest("action type cannot be empty".to_owned()));
        }
        match compact_json_text(parameters.as_str()) {
            Some(compact) => Ok(Action { action_type: action_type.to_owned(), target, parameters: compact }),
            None => Err(
                PraetoreError::InvalidRequest("action parameters must be a JSON value".to_owned()),
            ),
        }
    }

    /// Checks the action; see [`action_error`].
    pub fn validate(&self) -> (r: Result<(), PraetoreError>)
        ensures
            failure(r) == action_error(self@),
    {
        if blank(self.action_type.as_str()) {
            return Err(PraetoreError::InvalidRequest("action type cannot be empty".to_owned()));
        }
        Ok(())
    }
}

} // verus!
