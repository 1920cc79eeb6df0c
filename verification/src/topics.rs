//! Forum-topic operations that an agent tool or the scheduler asks for.
//!
//! The work itself runs against the live channel, behind a handler that is
//! registered at startup. A topic operation is invoked interactively, so the caller
//! must learn that it failed: without a handler there is a clear error.

use crate::text::string_view;
use vstd::prelude::*;

verus! {

/// A forum-topic operation requested by an agent tool or the scheduler.
///
/// The requesting agent never supplies an arbitrary `chat_id`: the caller
/// resolves the master forum group from configuration and passes it alongside
/// the op, so the LLM cannot target a group it was not granted.
#[derive(Debug, Clone, PartialEq, Eq)]
pub enum TopicOp {
    /// Create a new forum topic, optionally seeding its session with a brief.
    Create { name: String, brief: Option<String> },
    /// List the tracked topics for the group.
    List,
    /// Rename an existing topic identified by its current name.
    Rename { name: String, new_name: String },
    /// Close an existing topic identified by name.
    Close { name: String },
    /// Reopen a closed topic identified by name.
    Reopen { name: String },
    /// Resolve a topic name to its numeric `message_thread_id`.
    /// Used at schedule-creation time so the delivery path only carries the id.
    ResolveThreadId { name: String },
}

/// A topic operation, as a mathematical value.
pub enum TopicRequest {
    Create { name: Seq<char>, brief: Option<Seq<char>> },
    List,
    Rename { name: Seq<char>, new_name: Seq<char> },
    Close { name: Seq<char> },
    Reopen { name: Seq<char> },
    ResolveThreadId { name: Seq<char> },
}

impl View for TopicOp {
    type V = TopicRequest;

    open spec fn view(&self) -> TopicRequest {
        match *self {
            TopicOp::Create { name, brief } => TopicRequest::Create {
                name: name@,
                brief: string_view(brief),
            },
            TopicOp::List => TopicRequest::List,
            TopicOp::Rename { name, new_name } => TopicRequest::Rename {
                name: name@,
                new_name: new_name@,
            },
            TopicOp::Close { name } => TopicRequest::Close { name: name@ },
            TopicOp::Reopen { name } => TopicRequest::Reopen { name: name@ },
            TopicOp::ResolveThreadId { name } => TopicRequest::ResolveThreadId { name: name@ },
        }
    }
}

/// Result of a [`TopicOp`]. `message` is a human/LLM-facing summary; `thread_id`
/// is the resolved numeric topic id when the op produced or resolved one.
#[derive(Debug, Clone, PartialEq, Eq)]
pub struct TopicOpOutcome {
    pub message: String,
    pub thread_id: Option<String>,
}

/// The error when no topic-op handler is registered.
pub fn no_topic_op_handler_error() -> (r: String)
    ensures
        r@
            == "Telegram forum-topic operations are unavailable: no handler is registered (the channel runtime is not running, or register_topic_op_fn was not called)."@,
{
    "Telegram forum-topic operations are unavailable: no handler is registered (the channel runtime is not running, or register_topic_op_fn was not called).".to_owned()
}

} // verus!
