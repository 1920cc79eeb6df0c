//! Laws of the forum API and of service events.

use crate::decimal::{lemma_signed_decimal_injective, signed_decimal};
use crate::events::{event_in, Event};
use crate::forum_api::{chat_body, chat_member_body, create_topic_body, created_thread_id, edit_topic_body, grants_topics, reports_forum, send_body, topic_body};
use crate::json::Json;
use crate::registry::{after_event, topic_at, Chats, TopicStatus};
use crate::seed::{seed_message, ChannelConversationScope};
use crate::text::{cut_first, lemma_cut_first_at};
use vstd::prelude::*;

verus! {

/// A thread id goes out as a text, never as a number, and only where there is one.
pub proof fn law_thread_ids_go_out_as_text(
    chat_id: Seq<char>,
    thread_id: Seq<char>,
    target: Option<Seq<char>>,
    text: Seq<char>,
    parse_mode: Option<Seq<char>>,
    name: Seq<char>,
)
    ensures
        Json::Object(topic_body(chat_id, thread_id)).member("message_thread_id"@) == Some(
            Json::Text(thread_id),
        ),
        Json::Object(topic_body(chat_id, thread_id).insert("name"@, Json::Text(name))).member(
            "message_thread_id"@,
        ) == Some(Json::Text(thread_id)),
        send_body(chat_id, target, text, parse_mode).member("message_thread_id"@) == (
        match target {
            Some(id) => Some(Json::Text(id)),
            None => None,
        }),
{
    reveal_strlit("message_thread_id");
    assert("message_thread_id"@.len() == 17);
    reveal_strlit("name");
    assert("name"@.len() == 4);
    reveal_strlit("chat_id");
    assert("chat_id"@.len() == 7);
    reveal_strlit("text");
    assert("text"@.len() == 4);
    reveal_strlit("parse_mode");
    assert("parse_mode"@.len() == 10);
}

/// Every body of a forum request names the chat that it was built for.
pub proof fn law_bodies_name_their_chat(
    chat_id: Seq<char>,
    thread_id: Seq<char>,
    target: Option<Seq<char>>,
    text: Seq<char>,
    parse_mode: Option<Seq<char>>,
    name: Seq<char>,
    icon_color: Option<i64>,
    user_id: i64,
)
    ensures
        Json::Object(chat_body(chat_id)).text_at("chat_id"@) == Some(chat_id),
        Json::Object(chat_body(chat_id).insert("user_id"@, Json::Int(user_id as int))).text_at(
            "chat_id"@,
        ) == Some(chat_id),
        Json::Object(topic_body(chat_id, thread_id)).text_at("chat_id"@) == Some(chat_id),
        Json::Object(topic_body(chat_id, thread_id).insert("name"@, Json::Text(name))).text_at(
            "chat_id"@,
        ) == Some(chat_id),
        send_body(chat_id, target, text, parse_mode).text_at("chat_id"@) == Some(chat_id),
        create_topic_body(chat_id, name, icon_color).text_at("chat_id"@) == Some(chat_id),
{
    reveal_strlit("message_thread_id");
    assert("message_thread_id"@.len() == 17);
    reveal_strlit("name");
    assert("name"@.len() == 4);
    reveal_strlit("chat_id");
    assert("chat_id"@.len() == 7);
    reveal_strlit("text");
    assert("text"@.len() == 4);
    reveal_strlit("parse_mode");
    assert("parse_mode"@.len() == 10);
    reveal_strlit("icon_color");
    assert("icon_color"@.len() == 10);
    reveal_strlit("user_id");
    assert("user_id"@[0] == 'u');
    assert("chat_id"@[0] == 'c');
}

/// The creator of a group may manage its topics, whatever the permission says.
pub proof fn law_creator_may_manage_topics(response: Json, result: Json)
    requires
        response.member("result"@) == Some(result),
        result.text_at("status"@) == Some("creator"@),
    ensures
        grants_topics(response),
{
}

/// A service message is about the topic whose id it carries, and a message without an
/// id is no service message.
pub proof fn law_service_message_names_its_topic(message: Json)
    ensures
        event_in(message) matches Some(e) ==> {
            &&& message.int64_at("message_thread_id"@) matches Some(id)
            &&& e.thread() == signed_decimal(id as int)
        },
{
}

/// Messages about different topics never meet in the registry.
pub proof fn law_different_topics_stay_apart(a: Json, b: Json)
    requires
        event_in(a) is Some,
        event_in(b) is Some,
        a.int64_at("message_thread_id"@) != b.int64_at("message_thread_id"@),
    ensures
        event_in(a)->0.thread() != event_in(b)->0.thread(),
{
    let m = a.int64_at("message_thread_id"@)->0;
    let n = b.int64_at("message_thread_id"@)->0;
    if signed_decimal(m as int) == signed_decimal(n as int) {
        lemma_signed_decimal_injective(m as int, n as int);
    }
}

/// A topic that was created through the API is the one that its service messages are
/// about: the id in the response and the id in the message give one thread id.
pub proof fn law_created_topic_meets_its_events(response: Json, message: Json)
    requires
        event_in(message) is Some,
        created_thread_id(response) == message.int64_at("message_thread_id"@),
    ensures
        event_in(message)->0.thread() == signed_decimal(created_thread_id(response)->0 as int),
{
}

/// After a message that a topic was closed, the registry has the topic closed.
pub proof fn law_closed_message_closes_the_topic(
    chats: Chats,
    chat: Seq<char>,
    message: Json,
    id: i64,
    now: u64,
)
    requires
        message.int64_at("message_thread_id"@) == Some(id),
        message.member("forum_topic_closed"@) is Some,
        message.member("forum_topic_created"@) is None,
        message.member("forum_topic_edited"@) is None,
    ensures
        event_in(message) matches Some(e) && topic_at(
            after_event(chats, chat, e, now),
            chat,
            signed_decimal(id as int),
        ) matches Some(t) && t.status == TopicStatus::Closed,
{
}

/// The reply target of a seed message names its chat and its topic.
pub proof fn law_seed_target_is_chat_and_thread(chat_id: Seq<char>, thread_id: Seq<char>)
    requires
        !chat_id.contains(':'),
    ensures
        cut_first(chat_id + seq![':'] + thread_id, ':') == Some((chat_id, thread_id)),
{
    assert(chat_id + seq![':'] + thread_id =~= chat_id.push(':') + thread_id);
    lemma_cut_first_at(chat_id, ':', thread_id);
}

/// The keys of the bodies are different texts.
proof fn lemma_keys_differ()
    ensures
        "chat_id"@ != "name"@,
        "chat_id"@ != "icon_color"@,
        "chat_id"@ != "message_thread_id"@,
        "chat_id"@ != "text"@,
        "chat_id"@ != "parse_mode"@,
        "chat_id"@ != "user_id"@,
        "name"@ != "icon_color"@,
        "name"@ != "message_thread_id"@,
        "text"@ != "parse_mode"@,
        "text"@ != "message_thread_id"@,
        "parse_mode"@ != "message_thread_id"@,
{
    reveal_strlit("chat_id");
    reveal_strlit("name");
    reveal_strlit("icon_color");
    reveal_strlit("message_thread_id");
    reveal_strlit("text");
    reveal_strlit("parse_mode");
    reveal_strlit("user_id");
    assert("chat_id"@.len() == 7);
    assert("name"@.len() == 4);
    assert("icon_color"@.len() == 10);
    assert("message_thread_id"@.len() == 17);
    assert("text"@.len() == 4);
    assert("parse_mode"@.len() == 10);
    assert("chat_id"@[0] == 'c');
    assert("user_id"@[0] == 'u');
}

/// A request to create a topic holds the chat, the name and, where one is given, the
/// colour, each unchanged; and no more.
pub proof fn law_create_body_holds_what_was_given(
    chat_id: Seq<char>,
    name: Seq<char>,
    icon_color: Option<i64>,
    key: Seq<char>,
)
    ensures
        create_topic_body(chat_id, name, icon_color) is Object,
        create_topic_body(chat_id, name, icon_color).member(key) == (if key == "chat_id"@ {
            Some(Json::Text(chat_id))
        } else if key == "name"@ {
            Some(Json::Text(name))
        } else if key == "icon_color"@ {
            match icon_color {
                Some(color) => Some(Json::Int(color as int)),
                None => None,
            }
        } else {
            None
        }),
{
    lemma_keys_differ();
}

/// A request about a topic holds the chat and the topic, and one to rename it the new name
/// too, each unchanged and as text; and no more.
pub proof fn law_topic_bodies_hold_what_was_given(
    chat_id: Seq<char>,
    thread_id: Seq<char>,
    name: Seq<char>,
    key: Seq<char>,
)
    ensures
        edit_topic_body(chat_id, thread_id, name) is Object,
        edit_topic_body(chat_id, thread_id, name).member(key) == (if key == "chat_id"@ {
            Some(Json::Text(chat_id))
        } else if key == "message_thread_id"@ {
            Some(Json::Text(thread_id))
        } else if key == "name"@ {
            Some(Json::Text(name))
        } else {
            None
        }),
        Json::Object(topic_body(chat_id, thread_id)).member(key) == (if key == "chat_id"@ {
            Some(Json::Text(chat_id))
        } else if key == "message_thread_id"@ {
            Some(Json::Text(thread_id))
        } else {
            None
        }),
{
    lemma_keys_differ();
}

/// A request about a chat holds the chat, and one about a member the number of the member
/// too; and no more.
pub proof fn law_chat_bodies_hold_what_was_given(chat_id: Seq<char>, user_id: i64, key: Seq<char>)
    ensures
        Json::Object(chat_body(chat_id)).member(key) == (if key == "chat_id"@ {
            Some(Json::Text(chat_id))
        } else {
            None
        }),
        chat_member_body(chat_id, user_id) is Object,
        chat_member_body(chat_id, user_id).member(key) == (if key == "chat_id"@ {
            Some(Json::Text(chat_id))
        } else if key == "user_id"@ {
            Some(Json::Int(user_id as int))
        } else {
            None
        }),
{
    lemma_keys_differ();
}

/// A message to send holds the chat and the text, and the parse mode and the topic where
/// they are given, each unchanged and as text; and no more.
pub proof fn law_send_body_holds_what_was_given(
    chat_id: Seq<char>,
    thread_id: Option<Seq<char>>,
    text: Seq<char>,
    parse_mode: Option<Seq<char>>,
    key: Seq<char>,
)
    ensures
        send_body(chat_id, thread_id, text, parse_mode) is Object,
        send_body(chat_id, thread_id, text, parse_mode).member(key) == (if key == "chat_id"@ {
            Some(Json::Text(chat_id))
        } else if key == "text"@ {
            Some(Json::Text(text))
        } else if key == "parse_mode"@ && parse_mode is Some {
            Some(Json::Text(parse_mode->0))
        } else if key == "message_thread_id"@ && thread_id is Some {
            Some(Json::Text(thread_id->0))
        } else {
            None
        }),
{
    lemma_keys_differ();
}

/// The id of a created topic is the integer `message_thread_id` of the result, and nothing
/// else is taken for one.
pub proof fn law_created_id_is_read_from_the_result(response: Json, id: i64)
    ensures
        created_thread_id(response) == Some(id) <==> {
            &&& response matches Json::Object(o)
            &&& o.contains_key("result"@)
            &&& o["result"@] matches Json::Object(m)
            &&& m.contains_key("message_thread_id"@)
            &&& m["message_thread_id"@] == Json::Int(id as int)
        },
{
}

/// A chat is a forum where the result says that `is_forum` is true, and only there.
pub proof fn law_forum_flag_is_read_from_the_result(response: Json)
    ensures
        reports_forum(response) <==> {
            &&& response matches Json::Object(o)
            &&& o.contains_key("result"@)
            &&& o["result"@] matches Json::Object(m)
            &&& m.contains_key("is_forum"@)
            &&& m["is_forum"@] == Json::Bool(true)
        },
{
}

/// Topics may be managed by the creator and by who has the permission, and by no one else.
pub proof fn law_topic_permission_is_read_from_the_result(response: Json)
    ensures
        grants_topics(response) <==> {
            &&& response matches Json::Object(o)
            &&& o.contains_key("result"@)
            &&& o["result"@] matches Json::Object(m)
            &&& {
                ||| m.contains_key("status"@) && m["status"@] == Json::Text("creator"@)
                ||| m.contains_key("can_manage_topics"@) && m["can_manage_topics"@] == Json::Bool(
                    true,
                )
            }
        },
{
}

/// A message that a topic was created gives its id, its name unchanged and its colour, and
/// the registry then has an open topic of that id and name. A message that tells no name
/// gives an empty one.
pub proof fn law_created_message_names_the_topic(
    chats: Chats,
    chat: Seq<char>,
    message: Map<Seq<char>, Json>,
    id: i64,
    now: u64,
)
    requires
        message.contains_key("message_thread_id"@),
        message["message_thread_id"@] == Json::Int(id as int),
        message.contains_key("forum_topic_created"@),
    ensures
        event_in(Json::Object(message)) matches Some(e) && e matches Event::Created {
            thread_id,
            name,
            icon_color,
        } && thread_id == signed_decimal(id as int) && (match message["forum_topic_created"@] {
            Json::Object(c) => {
                &&& c.contains_key("name"@) && c["name"@] is Text ==> name == c["name"@]->Text_0
                &&& !(c.contains_key("name"@) && c["name"@] is Text) ==> name.len() == 0
                &&& icon_color matches Some(n) ==> c.contains_key("icon_color"@)
                    && c["icon_color"@] == Json::Int(n as int)
                &&& icon_color is None ==> !c.contains_key("icon_color"@) || !(
                c["icon_color"@] matches Json::Int(n) && i64::MIN <= n <= i64::MAX)
            },
            _ => name.len() == 0 && icon_color is None,
        }) && ({
            let after = after_event(chats, chat, e, now);
            &&& after.contains_key(chat)
            &&& after[chat].contains_key(thread_id)
            &&& after[chat][thread_id].name == name
            &&& after[chat][thread_id].status == TopicStatus::Open
        }),
{
}

/// A message that a topic was edited gives its id and, where it tells a new name, the name
/// unchanged.
pub proof fn law_edited_message_gives_the_new_name(message: Map<Seq<char>, Json>, id: i64)
    requires
        message.contains_key("message_thread_id"@),
        message["message_thread_id"@] == Json::Int(id as int),
        !message.contains_key("forum_topic_created"@),
        message.contains_key("forum_topic_edited"@),
    ensures
        event_in(Json::Object(message)) matches Some(Event::Edited { thread_id, name })
            && thread_id == signed_decimal(id as int) && (match message["forum_topic_edited"@] {
            Json::Object(c) => name == (if c.contains_key("name"@) && c["name"@] is Text {
                Some(c["name"@]->Text_0)
            } else {
                None
            }),
            _ => name is None,
        }),
{
}

/// A message that a topic was closed, or reopened, gives its id; where several kinds of
/// event are told at once, a create comes first, then an edit, then a close.
pub proof fn law_closed_and_reopened_messages_give_the_topic(
    message: Map<Seq<char>, Json>,
    id: i64,
)
    requires
        message.contains_key("message_thread_id"@),
        message["message_thread_id"@] == Json::Int(id as int),
        !message.contains_key("forum_topic_created"@),
        !message.contains_key("forum_topic_edited"@),
    ensures
        event_in(Json::Object(message)) == (if message.contains_key("forum_topic_closed"@) {
            Some(Event::Closed { thread_id: signed_decimal(id as int) })
        } else if message.contains_key("forum_topic_reopened"@) {
            Some(Event::Reopened { thread_id: signed_decimal(id as int) })
        } else {
            None
        }),
{
}

/// A message that carries no integer id in the range of 64 signed bits reports no event.
pub proof fn law_messages_without_an_id_report_nothing(message: Json)
    requires
        message matches Json::Object(m) ==> !m.contains_key("message_thread_id"@) || !(
        m["message_thread_id"@] matches Json::Int(n) && -0x8000_0000_0000_0000 <= n
            < 0x8000_0000_0000_0000),
    ensures
        event_in(message) is None,
{
}

/// A seed message carries the brief and the sender unchanged, on the given channel, and is
/// addressed to the bot.
pub proof fn law_seed_carries_the_brief(
    alias: Seq<char>,
    chat_id: Seq<char>,
    thread_id: Seq<char>,
    brief: Seq<char>,
    sender: Seq<char>,
)
    ensures
        ({
            let m = seed_message(alias, chat_id, thread_id, brief, sender);
            &&& m.content == brief
            &&& m.sender == sender
            &&& m.channel == "telegram"@
            &&& m.channel_alias == Some(alias)
            &&& m.thread_ts == Some(thread_id)
            &&& m.conversation_scope == ChannelConversationScope::ReplyTarget
            &&& m.explicitly_addressed
            &&& m.id == "telegram_"@ + (chat_id + ("_seed_"@ + thread_id))
            &&& m.reply_target.len() == chat_id.len() + 1 + thread_id.len()
            &&& m.reply_target.take(chat_id.len() as int) == chat_id
            &&& m.reply_target[chat_id.len() as int] == ':'
            &&& m.reply_target.skip(chat_id.len() as int + 1) == thread_id
        }),
{
    let m = seed_message(alias, chat_id, thread_id, brief, sender);
    assert(m.id =~= "telegram_"@ + (chat_id + ("_seed_"@ + thread_id)));
    assert(m.reply_target.take(chat_id.len() as int) =~= chat_id);
    assert(m.reply_target.skip(chat_id.len() as int + 1) =~= thread_id);
}

/// Two seeds of one topic share their session, whoever sends them, and seeds of different
/// topics never do.
pub proof fn law_one_topic_is_one_session(
    alias: Seq<char>,
    chat_id: Seq<char>,
    thread_id: Seq<char>,
    brief: Seq<char>,
    sender: Seq<char>,
    other_chat: Seq<char>,
    other_thread: Seq<char>,
    other_brief: Seq<char>,
    other_sender: Seq<char>,
)
    requires
        !chat_id.contains(':'),
        !other_chat.contains(':'),
    ensures
        seed_message(alias, chat_id, thread_id, brief, sender).reply_target == seed_message(
            alias,
            other_chat,
            other_thread,
            other_brief,
            other_sender,
        ).reply_target <==> chat_id == other_chat && thread_id == other_thread,
{
    law_seed_target_is_chat_and_thread(chat_id, thread_id);
    law_seed_target_is_chat_and_thread(other_chat, other_thread);
}

} // verus!
