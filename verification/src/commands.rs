//! The slash commands of the owner, and who the owner is.

use crate::text::{after_first_word, before_first, cut_first, first_place, first_word, non_blank, same, split_once, split_word, string_view, trim, trim_start, trimmed, trimmed_start};
use vstd::prelude::*;

verus! {

/// A parsed owner-facing topic slash command.
#[derive(Debug, Clone, PartialEq, Eq)]
pub enum TopicCommand {
    /// `/new_topic <name>` or `/new_topic <name> | <brief>`
    NewTopic { name: String, brief: Option<String> },
    /// `/topics`
    ListTopics,
    /// `/rename_topic <new name>`
    RenameTopic { new_name: String },
    /// `/close_topic`
    CloseTopic,
    /// `/reopen_topic`
    ReopenTopic,
    /// `/chat_id` — bootstrap helper, not owner-gated.
    ChatId,
}

/// A command, as a mathematical value.
pub enum Command {
    NewTopic { name: Seq<char>, brief: Option<Seq<char>> },
    ListTopics,
    RenameTopic { new_name: Seq<char> },
    CloseTopic,
    ReopenTopic,
    ChatId,
}

impl View for TopicCommand {
    type V = Command;

    open spec fn view(&self) -> Command {
        match *self {
            TopicCommand::NewTopic { name, brief } => Command::NewTopic {
                name: name@,
                brief: string_view(brief),
            },
            TopicCommand::ListTopics => Command::ListTopics,
            TopicCommand::RenameTopic { new_name } => Command::RenameTopic { new_name: new_name@ },
            TopicCommand::CloseTopic => Command::CloseTopic,
            TopicCommand::ReopenTopic => Command::ReopenTopic,
            TopicCommand::ChatId => Command::ChatId,
        }
    }
}

/// The new topic that the argument `rest` asks for: a name, and a brief after the
/// first bar.
pub open spec fn new_topic_of(rest: Seq<char>) -> Command {
    match cut_first(rest, '|') {
        Some((name, brief)) => Command::NewTopic { name: trimmed(name), brief: non_blank(brief) },
        None => Command::NewTopic { name: rest, brief: None },
    }
}

/// The command of the given name with the argument `rest`.
pub open spec fn command_named(name: Seq<char>, rest: Seq<char>) -> Option<Command> {
    if name == "/new_topic"@ {
        Some(new_topic_of(rest))
    } else if name == "/topics"@ {
        Some(Command::ListTopics)
    } else if name == "/rename_topic"@ {
        Some(Command::RenameTopic { new_name: rest })
    } else if name == "/close_topic"@ {
        Some(Command::CloseTopic)
    } else if name == "/reopen_topic"@ {
        Some(Command::ReopenTopic)
    } else if name == "/chat_id"@ {
        Some(Command::ChatId)
    } else {
        None
    }
}

/// The command in a message: its first word up to an `@`, with the trimmed rest as
/// the argument. White space before the command plays no part.
pub open spec fn command_in(text: Seq<char>) -> Option<Command> {
    let line = trimmed_start(text);
    if line.len() > 0 && line[0] == '/' {
        command_named(before_first(first_word(line), '@'), trimmed(after_first_word(line)))
    } else {
        None
    }
}

/// Parse a topic slash command from message text. Handles a trailing
/// `@botname` suffix on the command token. Returns `None` when the text is not
/// one of the recognized topic commands.
pub fn parse_topic_command(text: &str) -> (r: Option<TopicCommand>)
    ensures
        (match r {
            Some(c) => Some(c@),
            None => None,
        }) == command_in(text@),
{
    let line = trim_start(text);
    if line.is_empty() || line.get_char(0) != '/' {
        return None;
    }
    let (word, tail) = split_word(line);
    let name = match split_once(word, '@') {
        Some((before, _)) => before,
        None => word,
    };
    let rest = trim(tail);
    if same(name, "/new_topic") {
        let (name, brief) = match split_once(rest, '|') {
            Some((n, b)) => {
                let brief = trim(b);
                (
                    trim(n).to_owned(),
                    if brief.is_empty() {
                        None
                    } else {
                        Some(brief.to_owned())
                    },
                )
            },
            None => (rest.to_owned(), None),
        };
        Some(TopicCommand::NewTopic { name, brief })
    } else if same(name, "/topics") {
        Some(TopicCommand::ListTopics)
    } else if same(name, "/rename_topic") {
        Some(TopicCommand::RenameTopic { new_name: rest.to_owned() })
    } else if same(name, "/close_topic") {
        Some(TopicCommand::CloseTopic)
    } else if same(name, "/reopen_topic") {
        Some(TopicCommand::ReopenTopic)
    } else if same(name, "/chat_id") {
        Some(TopicCommand::ChatId)
    } else {
        None
    }
}

/// Whether the owners list holds `id`.
pub open spec fn owns(owners: Seq<String>, id: Seq<char>) -> bool {
    exists|i: int| 0 <= i < owners.len() && (#[trigger] owners[i])@ == id
}

/// Owner allowlist check. `owners` are numeric Telegram user-id strings;
/// `sender_id` is `message.from.id` as a string. Usernames never match because
/// they are compared against the numeric id, not the username.
pub fn is_owner(sender_id: Option<&str>, owners: &[String]) -> (r: bool)
    ensures
        r == (match sender_id {
            Some(id) => owns(owners@, id@),
            None => false,
        }),
{
    match sender_id {
        Some(id) => first_place(owners, id).is_some(),
        None => false,
    }
}

} // verus!
