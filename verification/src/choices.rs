//! Multiple-choice operations: render inline buttons and wait for a tap.
//!
//! Like a topic operation, a choice operation is invoked interactively by an agent
//! tool: the caller must learn that it failed, so without a handler there is a clear
//! error.

use crate::text::strings_view;
use vstd::prelude::*;

verus! {

/// A multiple-choice operation requested by an agent tool.
///
/// The requesting agent never supplies an arbitrary `chat_id`: the caller
/// resolves the target group from configuration and passes it alongside the
/// op, so the LLM cannot target a group it was not granted.
#[derive(Debug, Clone, PartialEq, Eq)]
pub enum ChoiceOp {
    /// Render `prompt` with one inline button per `options` entry and wait
    /// (bounded) for the user's tap.
    RenderChoice { prompt: String, options: Vec<String> },
}

/// A multiple-choice operation, as a mathematical value.
#[verifier::ext_equal]
pub enum ChoiceRequest {
    RenderChoice { prompt: Seq<char>, options: Seq<Seq<char>> },
}

impl View for ChoiceOp {
    type V = ChoiceRequest;

    open spec fn view(&self) -> ChoiceRequest {
        match *self {
            ChoiceOp::RenderChoice { prompt, options } => ChoiceRequest::RenderChoice {
                prompt: prompt@,
                options: strings_view(options@),
            },
        }
    }
}

/// Result of a [`ChoiceOp`]. `message` is a human/LLM-facing summary of the
/// outcome (which option was chosen, or that the prompt timed out).
#[derive(Debug, Clone, PartialEq, Eq)]
pub struct ChoiceOutcome {
    pub chosen_index: Option<usize>,
    pub chosen_text: Option<String>,
    pub message: String,
}

/// The error when no choice-op handler is registered.
pub fn no_choice_op_handler_error() -> (r: String)
    ensures
        r@
            == "Telegram multiple-choice operations are unavailable: no handler is registered (the channel runtime is not running, or register_choice_op_fn was not called)."@,
{
    "Telegram multiple-choice operations are unavailable: no handler is registered (the channel runtime is not running, or register_choice_op_fn was not called).".to_owned()
}

} // verus!
