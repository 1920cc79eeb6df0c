//! Request bodies and responses of the Telegram forum API.
//!
//! `message_thread_id` is encoded as a JSON string in every body built here.

use crate::json::{int_member, int_value, json_of, member, object_value, set_member, text_member, text_value, truth_member, Json};
use crate::text::{same, str_view};
use serde_json::Value;
use vstd::prelude::*;

verus! {

/// What a Telegram response can lack.
#[derive(Debug, Clone, Copy, PartialEq, Eq, Structural)]
pub enum ForumApiError {
    /// A `createForumTopic` response without an integer `message_thread_id`.
    MissingThreadId,
}

impl ForumApiError {
    /// The error in words.
    pub fn message(&self) -> (r: String)
        ensures
            r@ == "createForumTopic response missing message_thread_id"@,
    {
        "createForumTopic response missing message_thread_id".to_owned()
    }
}

/// The members of the body of `getChat`, which every other body holds too.
pub open spec fn chat_body(chat_id: Seq<char>) -> Map<Seq<char>, Json> {
    map!["chat_id"@ => Json::Text(chat_id)]
}

/// The body of `createForumTopic`.
pub open spec fn create_topic_body(
    chat_id: Seq<char>,
    name: Seq<char>,
    icon_color: Option<i64>,
) -> Json {
    let body = chat_body(chat_id).insert("name"@, Json::Text(name));
    Json::Object(
        match icon_color {
            Some(color) => body.insert("icon_color"@, Json::Int(color as int)),
            None => body,
        },
    )
}

/// The members of the body of a request about one topic.
pub open spec fn topic_body(chat_id: Seq<char>, thread_id: Seq<char>) -> Map<Seq<char>, Json> {
    chat_body(chat_id).insert("message_thread_id"@, Json::Text(thread_id))
}

/// The body of `editForumTopic`.
pub open spec fn edit_topic_body(
    chat_id: Seq<char>,
    thread_id: Seq<char>,
    name: Seq<char>,
) -> Json {
    Json::Object(topic_body(chat_id, thread_id).insert("name"@, Json::Text(name)))
}

/// The body of `getChatMember`.
pub open spec fn chat_member_body(chat_id: Seq<char>, user_id: i64) -> Json {
    Json::Object(chat_body(chat_id).insert("user_id"@, Json::Int(user_id as int)))
}

/// The body of `sendMessage`.
pub open spec fn send_body(
    chat_id: Seq<char>,
    thread_id: Option<Seq<char>>,
    text: Seq<char>,
    parse_mode: Option<Seq<char>>,
) -> Json {
    let base = chat_body(chat_id).insert("text"@, Json::Text(text));
    let moded = match parse_mode {
        Some(mode) => base.insert("parse_mode"@, Json::Text(mode)),
        None => base,
    };
    Json::Object(
        match thread_id {
            Some(id) => moded.insert("message_thread_id"@, Json::Text(id)),
            None => moded,
        },
    )
}

/// The thread id in the answer to `createForumTopic`.
pub open spec fn created_thread_id(response: Json) -> Option<i64> {
    match response.member("result"@) {
        Some(result) => result.int64_at("message_thread_id"@),
        None => None,
    }
}

/// Whether the answer to `getChat` calls the chat a forum.
pub open spec fn reports_forum(response: Json) -> bool {
    match response.member("result"@) {
        Some(result) => result.truth_at("is_forum"@) == Some(true),
        None => false,
    }
}

/// Whether the answer to `getChatMember` grants topic management: to the creator of
/// the group, and to a member who has the permission.
pub open spec fn grants_topics(response: Json) -> bool {
    match response.member("result"@) {
        Some(result) => {
            ||| result.text_at("status"@) == Some("creator"@)
            ||| result.truth_at("can_manage_topics"@) == Some(true)
        },
        None => false,
    }
}

/// `createForumTopic` request body. `icon_color` is optional.
pub fn build_create_forum_topic_body(chat_id: &str, name: &str, icon_color: Option<i64>) -> (r:
    Value)
    ensures
        json_of(r) == create_topic_body(chat_id@, name@, icon_color),
{
    let mut body = build_get_chat_body(chat_id);
    set_member(&mut body, "name", text_value(name));
    if let Some(color) = icon_color {
        set_member(&mut body, "icon_color", int_value(color));
    }
    body
}

/// Parse the `message_thread_id` (returned as an integer) from a
/// `createForumTopic` response.
pub fn parse_create_forum_topic_response(v: &Value) -> (r: Result<i64, ForumApiError>)
    ensures
        r == (match created_thread_id(json_of(*v)) {
            Some(id) => Ok(id),
            None => Err(ForumApiError::MissingThreadId),
        }),
{
    let id = match member(v, "result") {
        Some(result) => int_member(result, "message_thread_id"),
        None => None,
    };
    match id {
        Some(id) => Ok(id),
        None => Err(ForumApiError::MissingThreadId),
    }
}

/// `editForumTopic` request body. `message_thread_id` is a JSON **string**.
pub fn build_edit_forum_topic_body(chat_id: &str, thread_id: &str, name: &str) -> (r: Value)
    ensures
        json_of(r) == edit_topic_body(chat_id@, thread_id@, name@),
{
    let mut body = build_close_forum_topic_body(chat_id, thread_id);
    set_member(&mut body, "name", text_value(name));
    body
}

/// `closeForumTopic` request body. `message_thread_id` is a JSON **string**.
pub fn build_close_forum_topic_body(chat_id: &str, thread_id: &str) -> (r: Value)
    ensures
        json_of(r) == Json::Object(topic_body(chat_id@, thread_id@)),
{
    let mut body = build_get_chat_body(chat_id);
    set_member(&mut body, "message_thread_id", text_value(thread_id));
    body
}

/// `reopenForumTopic` request body. `message_thread_id` is a JSON **string**.
pub fn build_reopen_forum_topic_body(chat_id: &str, thread_id: &str) -> (r: Value)
    ensures
        json_of(r) == Json::Object(topic_body(chat_id@, thread_id@)),
{
    build_close_forum_topic_body(chat_id, thread_id)
}

/// `getChat` request body.
pub fn build_get_chat_body(chat_id: &str) -> (r: Value)
    ensures
        json_of(r) == Json::Object(chat_body(chat_id@)),
{
    let mut body = object_value();
    set_member(&mut body, "chat_id", text_value(chat_id));
    body
}

/// Whether a `getChat` response reports the chat as a forum supergroup.
pub fn parse_get_chat_is_forum(v: &Value) -> (r: bool)
    ensures
        r == reports_forum(json_of(*v)),
{
    match member(v, "result") {
        Some(result) => match truth_member(result, "is_forum") {
            Some(b) => b,
            None => false,
        },
        None => false,
    }
}

/// `getChatMember` request body. `user_id` is a numeric integer per the API.
pub fn build_get_chat_member_body(chat_id: &str, user_id: i64) -> (r: Value)
    ensures
        json_of(r) == chat_member_body(chat_id@, user_id),
{
    let mut body = build_get_chat_body(chat_id);
    set_member(&mut body, "user_id", int_value(user_id));
    body
}

/// Whether a `getChatMember` response grants topic management. The group
/// creator has the permission implicitly even when `can_manage_topics` is
/// absent, so `status == "creator"` is treated as allowed.
pub fn parse_get_chat_member_can_manage_topics(v: &Value) -> (r: bool)
    ensures
        r == grants_topics(json_of(*v)),
{
    let result = match member(v, "result") {
        Some(result) => result,
        None => {
            return false;
        },
    };
    if let Some(status) = text_member(result, "status") {
        if same(status, "creator") {
            return true;
        }
    }
    match truth_member(result, "can_manage_topics") {
        Some(b) => b,
        None => false,
    }
}

/// Base `sendMessage` body used by the delivery/text path.
/// `message_thread_id` is encoded as a JSON **string** when present.
pub fn build_telegram_send_body(
    chat_id: &str,
    thread_id: Option<&str>,
    text: &str,
    parse_mode: Option<&str>,
) -> (r: Value)
    ensures
        json_of(r) == send_body(chat_id@, str_view(thread_id), text@, str_view(parse_mode)),
{
    let mut body = build_get_chat_body(chat_id);
    set_member(&mut body, "text", text_value(text));
    if let Some(mode) = parse_mode {
        set_member(&mut body, "parse_mode", text_value(mode));
    }
    if let Some(id) = thread_id {
        set_member(&mut body, "message_thread_id", text_value(id));
    }
    body
}

} // verus!
