//! The message that seeds the session of a new topic.

use crate::text::string_view;
use vstd::prelude::*;

verus! {

/// Which messages share one conversation session.
#[derive(Debug, Clone, Copy, PartialEq, Eq, Structural)]
pub enum ChannelConversationScope {
    /// All messages with one reply target.
    ReplyTarget,
}

/// A message on its way through a channel.
#[derive(Debug, Clone, PartialEq, Eq)]
pub struct ChannelMessage {
    pub id: String,
    pub sender: String,
    pub reply_target: String,
    pub content: String,
    pub channel: String,
    pub channel_alias: Option<String>,
    pub thread_ts: Option<String>,
    pub conversation_scope: ChannelConversationScope,
    pub explicitly_addressed: bool,
}

/// A message, as a mathematical value.
pub struct Message {
    pub id: Seq<char>,
    pub sender: Seq<char>,
    pub reply_target: Seq<char>,
    pub content: Seq<char>,
    pub channel: Seq<char>,
    pub channel_alias: Option<Seq<char>>,
    pub thread_ts: Option<Seq<char>>,
    pub conversation_scope: ChannelConversationScope,
    pub explicitly_addressed: bool,
}

impl View for ChannelMessage {
    type V = Message;

    open spec fn view(&self) -> Message {
        Message {
            id: self.id@,
            sender: self.sender@,
            reply_target: self.reply_target@,
            content: self.content@,
            channel: self.channel@,
            channel_alias: string_view(self.channel_alias),
            thread_ts: string_view(self.thread_ts),
            conversation_scope: self.conversation_scope,
            explicitly_addressed: self.explicitly_addressed,
        }
    }
}

/// The message that seeds the session of a topic with a brief.
pub open spec fn seed_message(
    alias: Seq<char>,
    chat_id: Seq<char>,
    thread_id: Seq<char>,
    brief: Seq<char>,
    sender: Seq<char>,
) -> Message {
    Message {
        id: "telegram_"@ + chat_id + "_seed_"@ + thread_id,
        sender,
        reply_target: chat_id + seq![':'] + thread_id,
        content: brief,
        channel: "telegram"@,
        channel_alias: Some(alias),
        thread_ts: Some(thread_id),
        conversation_scope: ChannelConversationScope::ReplyTarget,
        explicitly_addressed: true,
    }
}

/// Build the seed [`ChannelMessage`] pushed through the normal ingestion path
/// when `/new_topic <name> | <brief>` supplies a brief. It is scoped exactly
/// like an inbound topic message (`ReplyTarget`, `reply_target = chat:thread`,
/// `thread_ts = thread`) so the seed and later replies share one session, and
/// it is `explicitly_addressed` so the orchestrator starts a turn even in
/// mention-only groups.
pub fn build_seed_message(
    alias: &str,
    chat_id: &str,
    thread_id: &str,
    brief: &str,
    sender: &str,
) -> (r: ChannelMessage)
    ensures
        r@ == seed_message(alias@, chat_id@, thread_id@, brief@, sender@),
        r.id@ == "telegram_"@ + chat_id@ + "_seed_"@ + thread_id@,
        r.sender@ == sender@,
        r.reply_target@ == chat_id@ + seq![':'] + thread_id@,
        r.content@ == brief@,
        r.channel@ == "telegram"@,
        string_view(r.channel_alias) == Some(alias@),
        string_view(r.thread_ts) == Some(thread_id@),
        r.conversation_scope == ChannelConversationScope::ReplyTarget,
        r.explicitly_addressed,
{
    let mut id = "telegram_".to_owned();
    id.append(chat_id);
    id.append("_seed_");
    id.append(thread_id);
    let mut reply_target = chat_id.to_owned();
    reply_target.push(':');
    assert(reply_target@ =~= chat_id@ + seq![':']);
    reply_target.append(thread_id);
    ChannelMessage {
        id,
        sender: sender.to_owned(),
        reply_target,
        content: brief.to_owned(),
        channel: "telegram".to_owned(),
        channel_alias: Some(alias.to_owned()),
        thread_ts: Some(thread_id.to_owned()),
        conversation_scope: ChannelConversationScope::ReplyTarget,
        explicitly_addressed: true,
    }
}

} // verus!
