//! The question that is asked before something that cannot be undone.

use vstd::prelude::*;
use crate::text::same_text;

verus! {

/// What the user answered.
#[derive(Debug)]
pub enum ConfirmationDialogResponse {
    Cancel,
    Confirm,
    /// An answer that the dialog did not offer by itself.
    Custom(String),
}

/// How the button that confirms looks.
#[derive(Debug, Clone, Copy, PartialEq, Eq, Structural)]
pub enum ResponseAppearance {
    Default,
    Suggested,
    Destructive,
}

/// A question with two answers, one of which goes ahead.
#[derive(Debug)]
pub struct ConfirmationDialog {
    /// The question.
    pub message: String,
    /// What going ahead means.
    pub description: String,
    /// The word on the button that goes ahead.
    pub reponse_verb: String,
    /// How that button looks.
    pub reponse_appearance: ResponseAppearance,
}

/// The name of the answer that cancels.
pub fn response_cancel() -> (name: &'static str)
    ensures
        name@ == "cancel"@,
{
    "cancel"
}

/// The name of the answer that goes ahead.
pub fn response_confirm() -> (name: &'static str)
    ensures
        name@ == "confirm"@,
{
    "confirm"
}

impl ConfirmationDialogResponse {
    /// The answer with the name `id`.
    pub fn from_response(id: &str) -> (response: ConfirmationDialogResponse)
        ensures
            id@ == "cancel"@ ==> response is Cancel,
            id@ != "cancel"@ && id@ == "confirm"@ ==> response is Confirm,
            id@ != "cancel"@ && id@ != "confirm"@ ==> (response
                matches ConfirmationDialogResponse::Custom(name) && name@ == id@),
    {
        if same_text(id, response_cancel()) {
            ConfirmationDialogResponse::Cancel
        } else if same_text(id, response_confirm()) {
            ConfirmationDialogResponse::Confirm
        } else {
            ConfirmationDialogResponse::Custom(id.to_owned())
        }
    }
}

impl ConfirmationDialog {
    /// The answer that the return key gives, and the one that closing the
    /// dialog gives. Return goes ahead only where going ahead is what is
    /// suggested; closing always cancels.
    pub fn default_response(&self) -> (name: &'static str)
        ensures
            name@ == if self.reponse_appearance == ResponseAppearance::Suggested {
                "confirm"@
            } else {
                "cancel"@
            },
    {
        match self.reponse_appearance {
            ResponseAppearance::Suggested => response_confirm(),
            _ => response_cancel(),
        }
    }
}

} // verus!
