//! Laws of views: a mathematical value holds every field of the value that it stands for.

use crate::choices::{ChoiceOp, ChoiceRequest};
use crate::commands::{Command, TopicCommand};
use crate::events::{Event, ForumServiceEvent};
use crate::json::{items_of, json_of};
use crate::memorizer_bridge::MemqTap;
use crate::registry::TopicEntry;
use crate::seed::ChannelMessage;
use crate::text::{str_view, string_view, strings_view};
use crate::tools::{ToolResult, TopicsConfig};
use crate::topics::{TopicOp, TopicRequest};
use vstd::prelude::*;

verus! {

/// An optional text stands for its characters, and a list for those of each text in its
/// place.
pub proof fn law_texts_stand_for_their_characters(
    s: String,
    t: &str,
    list: Seq<String>,
    i: int,
)
    requires
        0 <= i < list.len(),
    ensures
        string_view(Some(s)) == Some(s@),
        string_view(None) is None,
        str_view(Some(t)) == Some(t@),
        str_view(None) is None,
        strings_view(list).len() == list.len(),
        strings_view(list)[i] == list[i]@,
{
}

/// A list of values stands for what each value holds, in its place.
pub proof fn law_lists_stand_for_their_items(values: Seq<serde_json::Value>, i: int)
    requires
        0 <= i < values.len(),
    ensures
        items_of(values).len() == values.len(),
        items_of(values)[i] == json_of(values[i]),
{
}

/// The views of structures hold each field as it is.
pub proof fn law_views_hold_every_field(
    entry: TopicEntry,
    tap: MemqTap,
    result: ToolResult,
    topics: TopicsConfig,
    message: ChannelMessage,
)
    ensures
        entry@.name == entry.name@,
        entry@.status == entry.status,
        entry@.purpose == string_view(entry.purpose),
        entry@.created_at == entry.created_at,
        entry@.updated_at == entry.updated_at,
        tap@.short_qid == tap.short_qid@,
        tap@.choice_idx == tap.choice_idx,
        result@.success == result.success,
        result@.output == result.output@,
        result@.error == string_view(result.error),
        topics@.enabled == topics.enabled,
        topics@.agent_managed == topics.agent_managed,
        topics@.group_id == string_view(topics.group_id),
        message@.id == message.id@,
        message@.sender == message.sender@,
        message@.reply_target == message.reply_target@,
        message@.content == message.content@,
        message@.channel == message.channel@,
        message@.channel_alias == string_view(message.channel_alias),
        message@.thread_ts == string_view(message.thread_ts),
        message@.conversation_scope == message.conversation_scope,
        message@.explicitly_addressed == message.explicitly_addressed,
{
}

/// The views of events, commands and operations are of the same kind, and hold each field
/// as it is.
pub proof fn law_views_keep_the_kind(
    a: String,
    b: String,
    o: Option<String>,
    color: Option<i64>,
    options: Vec<String>,
)
    ensures
        (ForumServiceEvent::Created { thread_id: a, name: b, icon_color: color })@ == (
        Event::Created { thread_id: a@, name: b@, icon_color: color }),
        (ForumServiceEvent::Edited { thread_id: a, name: o })@ == (Event::Edited {
            thread_id: a@,
            name: string_view(o),
        }),
        (ForumServiceEvent::Closed { thread_id: a })@ == (Event::Closed { thread_id: a@ }),
        (ForumServiceEvent::Reopened { thread_id: a })@ == (Event::Reopened { thread_id: a@ }),
        (TopicCommand::NewTopic { name: a, brief: o })@ == (Command::NewTopic {
            name: a@,
            brief: string_view(o),
        }),
        TopicCommand::ListTopics@ == Command::ListTopics,
        (TopicCommand::RenameTopic { new_name: a })@ == (Command::RenameTopic { new_name: a@ }),
        TopicCommand::CloseTopic@ == Command::CloseTopic,
        TopicCommand::ReopenTopic@ == Command::ReopenTopic,
        TopicCommand::ChatId@ == Command::ChatId,
        (TopicOp::Create { name: a, brief: o })@ == (TopicRequest::Create {
            name: a@,
            brief: string_view(o),
        }),
        TopicOp::List@ == TopicRequest::List,
        (TopicOp::Rename { name: a, new_name: b })@ == (TopicRequest::Rename {
            name: a@,
            new_name: b@,
        }),
        (TopicOp::Close { name: a })@ == (TopicRequest::Close { name: a@ }),
        (TopicOp::Reopen { name: a })@ == (TopicRequest::Reopen { name: a@ }),
        (TopicOp::ResolveThreadId { name: a })@ == (TopicRequest::ResolveThreadId { name: a@ }),
        (ChoiceOp::RenderChoice { prompt: a, options })@ == (ChoiceRequest::RenderChoice {
            prompt: a@,
            options: strings_view(options@),
        }),
{
}

} // verus!
