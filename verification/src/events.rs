//! Forum service events: what Telegram says happened to a topic.

use crate::decimal::{signed_decimal, signed_numeral};
use crate::json::{int_member, json_of, member, text_member, Json};
use crate::text::string_view;
use serde_json::Value;
use vstd::prelude::*;

verus! {

/// A parsed `forum_topic_*` service event from a Telegram message object.
#[allow(inconsistent_fields)]
#[derive(Debug, Clone, PartialEq, Eq)]
pub enum ForumServiceEvent {
    Created { thread_id: String, name: String, icon_color: Option<i64> },
    Edited { thread_id: String, name: Option<String> },
    Closed { thread_id: String },
    Reopened { thread_id: String },
}

/// A service event, as a mathematical value.
#[allow(inconsistent_fields)]
pub enum Event {
    Created { thread_id: Seq<char>, name: Seq<char>, icon_color: Option<i64> },
    Edited { thread_id: Seq<char>, name: Option<Seq<char>> },
    Closed { thread_id: Seq<char> },
    Reopened { thread_id: Seq<char> },
}

impl Event {
    /// The topic that the event is about.
    pub open spec fn thread(self) -> Seq<char> {
        match self {
            Event::Created { thread_id, .. } => thread_id,
            Event::Edited { thread_id, .. } => thread_id,
            Event::Closed { thread_id } => thread_id,
            Event::Reopened { thread_id } => thread_id,
        }
    }
}

impl View for ForumServiceEvent {
    type V = Event;

    open spec fn view(&self) -> Event {
        match *self {
            ForumServiceEvent::Created { thread_id, name, icon_color } => Event::Created {
                thread_id: thread_id@,
                name: name@,
                icon_color,
            },
            ForumServiceEvent::Edited { thread_id, name } => Event::Edited {
                thread_id: thread_id@,
                name: string_view(name),
            },
            ForumServiceEvent::Closed { thread_id } => Event::Closed { thread_id: thread_id@ },
            ForumServiceEvent::Reopened { thread_id } => Event::Reopened { thread_id: thread_id@ },
        }
    }
}

/// The event that a Telegram `message` object reports, if any. The message must
/// carry an integer `message_thread_id`; of the four kinds of event the first that is
/// present counts.
pub open spec fn event_in(message: Json) -> Option<Event> {
    match message.int64_at("message_thread_id"@) {
        None => None,
        Some(id) => {
            let thread_id = signed_decimal(id as int);
            match message.member("forum_topic_created"@) {
                Some(created) => Some(
                    Event::Created {
                        thread_id,
                        name: match created.text_at("name"@) {
                            Some(name) => name,
                            None => Seq::empty(),
                        },
                        icon_color: created.int64_at("icon_color"@),
                    },
                ),
                None => match message.member("forum_topic_edited"@) {
                    Some(edited) => Some(Event::Edited { thread_id, name: edited.text_at("name"@) }),
                    None => if message.member("forum_topic_closed"@) is Some {
                        Some(Event::Closed { thread_id })
                    } else if message.member("forum_topic_reopened"@) is Some {
                        Some(Event::Reopened { thread_id })
                    } else {
                        None
                    },
                },
            }
        },
    }
}

/// Extract a forum service event from a Telegram `message` object, if any.
/// Service messages carry `message_thread_id` equal to the topic id.
pub fn parse_forum_service_event(message: &Value) -> (r: Option<ForumServiceEvent>)
    ensures
        (match r {
            Some(e) => Some(e@),
            None => None,
        }) == event_in(json_of(*message)),
{
    let thread_id = match int_member(message, "message_thread_id") {
        Some(id) => signed_numeral(id),
        None => {
            return None;
        },
    };
    if let Some(created) = member(message, "forum_topic_created") {
        let name = match text_member(created, "name") {
            Some(name) => name.to_owned(),
            None => String::new(),
        };
        let icon_color = int_member(created, "icon_color");
        return Some(ForumServiceEvent::Created { thread_id, name, icon_color });
    }
    if let Some(edited) = member(message, "forum_topic_edited") {
        let name = match text_member(edited, "name") {
            Some(name) => Some(name.to_owned()),
            None => None,
        };
        return Some(ForumServiceEvent::Edited { thread_id, name });
    }
    if member(message, "forum_topic_closed").is_some() {
        return Some(ForumServiceEvent::Closed { thread_id });
    }
    if member(message, "forum_topic_reopened").is_some() {
        return Some(ForumServiceEvent::Reopened { thread_id });
    }
    None
}

} // verus!
