//! The topic registry, service events, slash commands and forum API bodies.

use serde_json::Value;
use telegram_topics::commands::{is_owner, parse_topic_command, TopicCommand};
use telegram_topics::events::{parse_forum_service_event, ForumServiceEvent};
use telegram_topics::forum_api::{
    build_close_forum_topic_body, build_create_forum_topic_body, build_edit_forum_topic_body,
    build_get_chat_body, build_get_chat_member_body, build_reopen_forum_topic_body,
    build_telegram_send_body, parse_create_forum_topic_response, parse_get_chat_is_forum,
    parse_get_chat_member_can_manage_topics, ForumApiError,
};
use telegram_topics::registry::{
    TopicEntry, TopicRegistry, TopicStatus, TELEGRAM_TOPICS_STATE_FILE,
};
use telegram_topics::seed::{build_seed_message, ChannelConversationScope};

fn json(text: &str) -> Value {
    serde_json::from_str(text).unwrap()
}

fn created(thread_id: &str, name: &str) -> ForumServiceEvent {
    ForumServiceEvent::Created {
        thread_id: thread_id.into(),
        name: name.into(),
        icon_color: None,
    }
}

// ── Registry upserts ────────────────────────────────────────────────

#[test]
fn registry_upsert_from_created() {
    let mut reg = TopicRegistry::default();
    let event = ForumServiceEvent::Created {
        thread_id: "789".into(),
        name: "Design".into(),
        icon_color: None,
    };
    reg.apply_event("-100200300", &event, 1000);
    let entry = reg.get("-100200300", "789").expect("topic present");
    assert_eq!(entry.name, "Design");
    assert_eq!(entry.status, TopicStatus::Open);
    assert_eq!(entry.created_at, 1000);
    assert_eq!(entry.updated_at, 1000);
}

#[test]
fn registry_upsert_from_edited_renames() {
    let mut reg = TopicRegistry::default();
    reg.apply_event("-100200300", &created("789", "Design"), 1000);
    reg.apply_event(
        "-100200300",
        &ForumServiceEvent::Edited {
            thread_id: "789".into(),
            name: Some("Architecture".into()),
        },
        2000,
    );
    let entry = reg.get("-100200300", "789").expect("topic present");
    assert_eq!(entry.name, "Architecture");
    assert_eq!(entry.created_at, 1000, "create timestamp preserved");
    assert_eq!(entry.updated_at, 2000, "update timestamp bumped");
}

#[test]
fn registry_upsert_from_closed() {
    let mut reg = TopicRegistry::default();
    reg.apply_event("-100200300", &created("789", "Design"), 1000);
    reg.apply_event(
        "-100200300",
        &ForumServiceEvent::Closed { thread_id: "789".into() },
        2000,
    );
    assert_eq!(reg.get("-100200300", "789").unwrap().status, TopicStatus::Closed);
}

#[test]
fn registry_upsert_from_reopened() {
    let mut reg = TopicRegistry::default();
    reg.apply_event("-100200300", &created("789", "Design"), 1000);
    reg.apply_event(
        "-100200300",
        &ForumServiceEvent::Closed { thread_id: "789".into() },
        2000,
    );
    reg.apply_event(
        "-100200300",
        &ForumServiceEvent::Reopened { thread_id: "789".into() },
        3000,
    );
    assert_eq!(reg.get("-100200300", "789").unwrap().status, TopicStatus::Open);
}

// ── Service-event parsing ───────────────────────────────────────────

#[test]
fn parse_forum_service_event_created() {
    let message = json(
        r#"{
            "message_thread_id": 789,
            "forum_topic_created": { "name": "Design", "icon_color": 7322096 }
        }"#,
    );
    assert_eq!(
        parse_forum_service_event(&message),
        Some(ForumServiceEvent::Created {
            thread_id: "789".into(),
            name: "Design".into(),
            icon_color: Some(7322096),
        })
    );
}

#[test]
fn parse_forum_service_event_edited() {
    let message = json(
        r#"{
            "message_thread_id": 789,
            "forum_topic_edited": { "name": "Architecture" }
        }"#,
    );
    assert_eq!(
        parse_forum_service_event(&message),
        Some(ForumServiceEvent::Edited {
            thread_id: "789".into(),
            name: Some("Architecture".into()),
        })
    );
}

#[test]
fn parse_forum_service_event_closed() {
    let message = json(r#"{ "message_thread_id": 789, "forum_topic_closed": {} }"#);
    assert_eq!(
        parse_forum_service_event(&message),
        Some(ForumServiceEvent::Closed { thread_id: "789".into() })
    );
}

#[test]
fn parse_forum_service_event_reopened() {
    let message = json(r#"{ "message_thread_id": 789, "forum_topic_reopened": {} }"#);
    assert_eq!(
        parse_forum_service_event(&message),
        Some(ForumServiceEvent::Reopened { thread_id: "789".into() })
    );
}

#[test]
fn parse_forum_service_event_none() {
    // Ordinary text message in a topic — not a service event.
    let message = json(r#"{ "message_thread_id": 789, "text": "hello" }"#);
    assert_eq!(parse_forum_service_event(&message), None);
    // No thread id at all.
    let message = json(r#"{ "text": "hi" }"#);
    assert_eq!(parse_forum_service_event(&message), None);
}

#[test]
fn service_event_edge_cases() {
    // The thread id must be an integer in the range of 64 signed bits.
    for id in ["\"789\"", "789.5", "789.0", "9223372036854775808", "null", "true", "[1]"] {
        let message = json(&format!(r#"{{ "message_thread_id": {id}, "forum_topic_closed": {{}} }}"#));
        assert_eq!(parse_forum_service_event(&message), None, "{id}");
    }
    for id in [i64::MIN, -1, 0, 7, 10, i64::MAX] {
        let message = json(&format!(r#"{{ "message_thread_id": {id}, "forum_topic_closed": null }}"#));
        assert_eq!(
            parse_forum_service_event(&message),
            Some(ForumServiceEvent::Closed { thread_id: id.to_string() })
        );
    }
    // A create without a usable name is nameless; an edit without one has none.
    let message = json(r#"{ "message_thread_id": 1, "forum_topic_created": { "name": 5, "icon_color": "x" } }"#);
    assert_eq!(parse_forum_service_event(&message), Some(created("1", "")));
    let message = json(r#"{ "message_thread_id": 1, "forum_topic_edited": {} }"#);
    assert_eq!(
        parse_forum_service_event(&message),
        Some(ForumServiceEvent::Edited { thread_id: "1".into(), name: None })
    );
    // The first kind of event counts.
    let message = json(
        r#"{ "message_thread_id": 1, "forum_topic_reopened": {}, "forum_topic_closed": {},
             "forum_topic_edited": { "name": "e" } }"#,
    );
    assert_eq!(
        parse_forum_service_event(&message),
        Some(ForumServiceEvent::Edited { thread_id: "1".into(), name: Some("e".into()) })
    );
    assert_eq!(parse_forum_service_event(&json("[]")), None);
    assert_eq!(parse_forum_service_event(&json("null")), None);
}

// ── The registry ────────────────────────────────────────────────────

#[test]
fn resolve_topic_by_name_at_schedule_time_returns_thread_id() {
    let mut reg = TopicRegistry::default();
    reg.upsert_created("-100200300", "789", "Design", None, 10);
    reg.upsert_created("-100200300", "790", "Ops Room", None, 20);
    // Case-insensitive match.
    assert_eq!(
        reg.resolve_thread_id_by_name("-100200300", "ops room"),
        Some("790".to_string())
    );
    assert_eq!(
        reg.resolve_thread_id_by_name("-100200300", "Design"),
        Some("789".to_string())
    );
    // Unknown name / unknown chat.
    assert_eq!(reg.resolve_thread_id_by_name("-100200300", "missing"), None);
    assert_eq!(reg.resolve_thread_id_by_name("-999", "Design"), None);
}

#[test]
fn resolution_trims_the_query_and_takes_the_first() {
    let mut reg = TopicRegistry::default();
    reg.upsert_created("c", "9", "Ops", None, 1);
    reg.upsert_created("c", "10", "OPS", None, 2);
    reg.upsert_created("c", "8", " Ops ", None, 3);
    // "10" comes before "9" in the order of strings.
    assert_eq!(reg.resolve_thread_id_by_name("c", "\u{3000}oPs\n"), Some("10".to_string()));
    // White space around a stored name is not cut off.
    assert_eq!(reg.resolve_thread_id_by_name("c", " Ops "), Some("10".to_string()));
    // The case of every letter is ignored, not of ASCII letters alone.
    reg.upsert_created("c", "11", "É", None, 4);
    assert_eq!(reg.resolve_thread_id_by_name("c", "é"), Some("11".to_string()));
    assert_eq!(reg.resolve_thread_id_by_name("c", "É"), Some("11".to_string()));
    assert_eq!(reg.resolve_thread_id_by_name("c", "E"), None);
    reg.upsert_created("c", "12", "straße ОТДЕЛ", None, 4);
    assert_eq!(reg.resolve_thread_id_by_name("c", " STRAßE отдел"), Some("12".to_string()));
    // The placeholder's empty name is found by a blank query.
    reg.set_status("d", "1", TopicStatus::Closed, 5);
    assert_eq!(reg.resolve_thread_id_by_name("d", "   "), Some("1".to_string()));
}

#[test]
fn upsert_keeps_creation_time_and_purpose() {
    let mut reg = TopicRegistry::default();
    reg.upsert_created("c", "1", "a", Some("why".into()), 10);
    reg.set_status("c", "1", TopicStatus::Closed, 20);
    reg.upsert_created("c", "1", "b", None, 30);
    assert_eq!(
        reg.get("c", "1"),
        Some(&TopicEntry {
            name: "b".into(),
            status: TopicStatus::Open,
            purpose: Some("why".into()),
            created_at: 10,
            updated_at: 30,
        })
    );
    reg.upsert_created("c", "1", "b", Some("new".into()), 40);
    assert_eq!(reg.get("c", "1").unwrap().purpose.as_deref(), Some("new"));
    // A service event brings no purpose.
    reg.apply_event("c", &created("1", "z"), 50);
    assert_eq!(reg.get("c", "1").unwrap().purpose.as_deref(), Some("new"));
    assert_eq!(reg.get("c", "1").unwrap().created_at, 10);
}

#[test]
fn unknown_topics_get_a_placeholder() {
    let mut reg = TopicRegistry::default();
    reg.rename("c", "1", "named", 5);
    assert_eq!(
        reg.get("c", "1"),
        Some(&TopicEntry {
            name: "named".into(),
            status: TopicStatus::Open,
            purpose: None,
            created_at: 5,
            updated_at: 5,
        })
    );
    reg.apply_event("c", &ForumServiceEvent::Closed { thread_id: "2".into() }, 6);
    assert_eq!(
        reg.get("c", "2"),
        Some(&TopicEntry {
            name: String::new(),
            status: TopicStatus::Closed,
            purpose: None,
            created_at: 6,
            updated_at: 6,
        })
    );
    assert_eq!(reg.get("c", "3"), None);
    assert_eq!(reg.get("d", "1"), None);
}

#[test]
fn edit_without_name_changes_nothing() {
    let mut reg = TopicRegistry::default();
    reg.upsert_created("c", "1", "a", None, 1);
    let before = reg.clone();
    reg.apply_event("c", &ForumServiceEvent::Edited { thread_id: "1".into(), name: None }, 9);
    reg.apply_event("d", &ForumServiceEvent::Edited { thread_id: "1".into(), name: None }, 9);
    assert_eq!(reg, before);
}

#[test]
fn event_twice_is_event_once() {
    let events = [
        created("1", "x"),
        ForumServiceEvent::Edited { thread_id: "1".into(), name: Some("y".into()) },
        ForumServiceEvent::Closed { thread_id: "1".into() },
        ForumServiceEvent::Reopened { thread_id: "2".into() },
    ];
    for event in &events {
        let mut once = TopicRegistry::default();
        once.upsert_created("c", "1", "a", Some("p".into()), 1);
        once.apply_event("c", event, 7);
        let mut twice = once.clone();
        twice.apply_event("c", event, 7);
        assert_eq!(once, twice);
    }
}

#[test]
fn close_then_reopen_restores_the_topic() {
    let mut reg = TopicRegistry::default();
    reg.upsert_created("c", "1", "a", Some("p".into()), 1);
    reg.upsert_created("c", "2", "b", None, 1);
    let other = reg.get("c", "2").cloned();
    reg.apply_event("c", &ForumServiceEvent::Closed { thread_id: "1".into() }, 2);
    reg.apply_event("c", &ForumServiceEvent::Reopened { thread_id: "1".into() }, 3);
    assert_eq!(
        reg.get("c", "1"),
        Some(&TopicEntry {
            name: "a".into(),
            status: TopicStatus::Open,
            purpose: Some("p".into()),
            created_at: 1,
            updated_at: 3,
        })
    );
    assert_eq!(reg.get("c", "2").cloned(), other);
}

#[test]
fn listing_is_ordered_by_thread_id() {
    let mut reg = TopicRegistry::default();
    for (i, id) in ["9", "10", "é", "", "z", "100", "9a", "\u{ffff}", "\u{10000}"].iter().enumerate() {
        reg.upsert_created("c", id, &format!("t{i}"), None, i as u64);
    }
    reg.upsert_created("b", "1", "elsewhere", None, 1);
    let ids: Vec<String> = reg.list_for_chat("c").into_iter().map(|(id, _)| id).collect();
    let mut sorted = ids.clone();
    sorted.sort();
    assert_eq!(ids, sorted);
    assert_eq!(ids, vec!["", "10", "100", "9", "9a", "z", "é", "\u{ffff}", "\u{10000}"]);
    assert_eq!(reg.list_for_chat("c")[3].1.name, "t0");
    assert!(reg.list_for_chat("x").is_empty());
}

#[test]
fn rows_round_trip() {
    let mut reg = TopicRegistry::default();
    reg.upsert_created("-100200300", "789", "Design", Some("brief".into()), 10);
    reg.upsert_created("-100200300", "790", "Ops", None, 20);
    reg.set_status("-5", "1", TopicStatus::Closed, 30);
    let rows = reg.to_rows();
    assert_eq!(rows.len(), 2);
    assert_eq!(rows[0].0, "-100200300");
    assert_eq!(rows[1].0, "-5");
    assert_eq!(TopicRegistry::from_rows(rows), reg);
    // A chat without topics stays a chat.
    let empty = TopicRegistry::from_rows(vec![("c".to_string(), vec![])]);
    assert_ne!(empty, TopicRegistry::default());
    assert_eq!(empty.to_rows(), vec![("c".to_string(), vec![])]);
}

#[test]
fn later_rows_count() {
    let entry = |name: &str| TopicEntry {
        name: name.into(),
        status: TopicStatus::Open,
        purpose: None,
        created_at: 0,
        updated_at: 0,
    };
    let reg = TopicRegistry::from_rows(vec![
        ("c".into(), vec![("1".into(), entry("gone"))]),
        ("c".into(), vec![("2".into(), entry("a")), ("2".into(), entry("b"))]),
    ]);
    assert_eq!(reg.get("c", "1"), None);
    assert_eq!(reg.get("c", "2").unwrap().name, "b");
}

#[test]
fn state_file_and_default_status() {
    assert_eq!(TELEGRAM_TOPICS_STATE_FILE, "telegram-topics.json");
    assert_eq!(TopicStatus::default(), TopicStatus::Open);
}

// ── Command parsing ─────────────────────────────────────────────────

#[test]
fn parse_topic_command_new_topic() {
    assert_eq!(
        parse_topic_command("/new_topic Design Review"),
        Some(TopicCommand::NewTopic {
            name: "Design Review".into(),
            brief: None,
        })
    );
}

#[test]
fn parse_topic_command_new_topic_with_brief() {
    assert_eq!(
        parse_topic_command("/new_topic Design | draft the RFC outline"),
        Some(TopicCommand::NewTopic {
            name: "Design".into(),
            brief: Some("draft the RFC outline".into()),
        })
    );
}

#[test]
fn parse_topic_command_topics() {
    assert_eq!(parse_topic_command("/topics"), Some(TopicCommand::ListTopics));
}

#[test]
fn parse_topic_command_rename_topic() {
    assert_eq!(
        parse_topic_command("/rename_topic New Name"),
        Some(TopicCommand::RenameTopic {
            new_name: "New Name".into(),
        })
    );
}

#[test]
fn parse_topic_command_close_and_reopen() {
    assert_eq!(
        parse_topic_command("/close_topic"),
        Some(TopicCommand::CloseTopic)
    );
    assert_eq!(
        parse_topic_command("/reopen_topic"),
        Some(TopicCommand::ReopenTopic)
    );
}

#[test]
fn parse_topic_command_chat_id() {
    assert_eq!(parse_topic_command("/chat_id"), Some(TopicCommand::ChatId));
}

#[test]
fn parse_topic_command_strips_botname_suffix() {
    assert_eq!(
        parse_topic_command("/new_topic@mybot Design"),
        Some(TopicCommand::NewTopic {
            name: "Design".into(),
            brief: None,
        })
    );
    assert_eq!(
        parse_topic_command("/chat_id@mybot"),
        Some(TopicCommand::ChatId)
    );
}

#[test]
fn parse_topic_command_non_command() {
    assert_eq!(parse_topic_command("hello there"), None);
    assert_eq!(parse_topic_command("/unknown_command x"), None);
}

#[test]
fn command_edge_cases() {
    let new = |name: &str, brief: Option<&str>| {
        Some(TopicCommand::NewTopic {
            name: name.into(),
            brief: brief.map(str::to_string),
        })
    };
    assert_eq!(parse_topic_command(" \n\u{3000}/new_topic\u{a0}  a  "), new("a", None));
    assert_eq!(parse_topic_command("/new_topic"), new("", None));
    assert_eq!(parse_topic_command("/new_topic | brief"), new("", Some("brief")));
    assert_eq!(parse_topic_command("/new_topic a |  "), new("a", None));
    assert_eq!(parse_topic_command("/new_topic a|b|c"), new("a", Some("b|c")));
    assert_eq!(parse_topic_command("/new_topic@a@b x@y"), new("x@y", None));
    assert_eq!(parse_topic_command("/topics now"), Some(TopicCommand::ListTopics));
    assert_eq!(
        parse_topic_command("/rename_topic\ta | b"),
        Some(TopicCommand::RenameTopic { new_name: "a | b".into() })
    );
    assert_eq!(parse_topic_command(""), None);
    assert_eq!(parse_topic_command("   "), None);
    assert_eq!(parse_topic_command("/"), None);
    assert_eq!(parse_topic_command("/@bot"), None);
    assert_eq!(parse_topic_command("x /topics"), None);
    assert_eq!(parse_topic_command("/Topics"), None);
    assert_eq!(parse_topic_command("/topics\u{200b}"), None);
}

// ── Owner gate ──────────────────────────────────────────────────────

#[test]
fn owner_gate_reads_from_id_not_username() {
    let owners = vec!["555".to_string()];
    // Numeric id matches.
    assert!(is_owner(Some("555"), &owners));
    // A username-based owner list never matches a numeric sender id.
    let username_owners = vec!["alice".to_string()];
    assert!(!is_owner(Some("555"), &username_owners));
}

#[test]
fn owner_gate_rejects_non_owner() {
    let owners = vec!["555".to_string()];
    assert!(!is_owner(Some("999"), &owners));
    assert!(!is_owner(None, &owners));
}

#[test]
fn owner_gate_edge_cases() {
    let owners = vec!["1".to_string(), "555".to_string(), "1".to_string()];
    assert!(is_owner(Some("555"), &owners));
    assert!(!is_owner(Some("55"), &owners));
    assert!(!is_owner(Some(" 555"), &owners));
    assert!(!is_owner(Some("555"), &[]));
    assert!(!is_owner(None, &[]));
}

// ── Forum API builders / parsers ────────────────────────────────────

#[test]
fn build_create_forum_topic_body_with_and_without_color() {
    assert_eq!(
        build_create_forum_topic_body("-100200300", "Design", None),
        json(r#"{ "chat_id": "-100200300", "name": "Design" }"#)
    );
    assert_eq!(
        build_create_forum_topic_body("-100200300", "Design", Some(7322096)),
        json(r#"{ "chat_id": "-100200300", "name": "Design", "icon_color": 7322096 }"#)
    );
}

#[test]
fn parse_create_forum_topic_response_extracts_thread_id() {
    let resp = json(r#"{ "ok": true, "result": { "message_thread_id": 789, "name": "Design" } }"#);
    assert_eq!(parse_create_forum_topic_response(&resp).unwrap(), 789);
    let bad = json(r#"{ "ok": true, "result": {} }"#);
    assert!(parse_create_forum_topic_response(&bad).is_err());
}

#[test]
fn create_response_error_in_words() {
    let err = parse_create_forum_topic_response(&json("{}")).unwrap_err();
    assert_eq!(err, ForumApiError::MissingThreadId);
    assert_eq!(err.message(), "createForumTopic response missing message_thread_id");
    let text = json(r#"{ "result": { "message_thread_id": "789" } }"#);
    assert!(parse_create_forum_topic_response(&text).is_err());
}

#[test]
fn edit_close_reopen_bodies_encode_thread_id_as_string() {
    // message_thread_id MUST be the string form, never an integer.
    assert_eq!(
        build_edit_forum_topic_body("-100200300", "789", "Architecture"),
        json(r#"{ "chat_id": "-100200300", "message_thread_id": "789", "name": "Architecture" }"#)
    );
    assert_eq!(
        build_close_forum_topic_body("-100200300", "789"),
        json(r#"{ "chat_id": "-100200300", "message_thread_id": "789" }"#)
    );
    assert_eq!(
        build_reopen_forum_topic_body("-100200300", "789"),
        json(r#"{ "chat_id": "-100200300", "message_thread_id": "789" }"#)
    );
}

#[test]
fn parse_get_chat_is_forum_reads_flag() {
    assert!(parse_get_chat_is_forum(&json(r#"{ "result": { "is_forum": true } }"#)));
    assert!(!parse_get_chat_is_forum(&json(r#"{ "result": { "is_forum": false } }"#)));
    assert!(!parse_get_chat_is_forum(&json(r#"{ "result": {} }"#)));
}

#[test]
fn parse_get_chat_member_can_manage_topics_variants() {
    // Explicit permission.
    assert!(parse_get_chat_member_can_manage_topics(&json(
        r#"{ "result": { "status": "administrator", "can_manage_topics": true } }"#
    )));
    // Missing permission.
    assert!(!parse_get_chat_member_can_manage_topics(&json(
        r#"{ "result": { "status": "administrator", "can_manage_topics": false } }"#
    )));
    // Creator is allowed even without the flag.
    assert!(parse_get_chat_member_can_manage_topics(&json(
        r#"{ "result": { "status": "creator" } }"#
    )));
    // Ordinary member.
    assert!(!parse_get_chat_member_can_manage_topics(&json(
        r#"{ "result": { "status": "member" } }"#
    )));
}

#[test]
fn preflight_edge_cases() {
    assert!(!parse_get_chat_is_forum(&json("{}")));
    assert!(!parse_get_chat_is_forum(&json(r#"{ "result": { "is_forum": "true" } }"#)));
    assert!(!parse_get_chat_member_can_manage_topics(&json("{}")));
    assert!(!parse_get_chat_member_can_manage_topics(&json(r#"{ "result": 1 }"#)));
    assert!(!parse_get_chat_member_can_manage_topics(&json(
        r#"{ "result": { "status": "Creator" } }"#
    )));
    assert!(parse_get_chat_member_can_manage_topics(&json(
        r#"{ "result": { "status": "creator", "can_manage_topics": false } }"#
    )));
    assert!(parse_get_chat_member_can_manage_topics(&json(
        r#"{ "result": { "can_manage_topics": true } }"#
    )));
}

#[test]
fn preflight_bodies() {
    assert_eq!(build_get_chat_body("-1"), json(r#"{ "chat_id": "-1" }"#));
    assert_eq!(
        build_get_chat_member_body("-1", i64::MIN),
        json(r#"{ "chat_id": "-1", "user_id": -9223372036854775808 }"#)
    );
    assert_eq!(
        build_get_chat_member_body("-1", 42),
        json(r#"{ "chat_id": "-1", "user_id": 42 }"#)
    );
}

// ── Seed message ────────────────────────────────────────────────────

#[test]
fn build_seed_message_is_replytarget_scoped_and_addressed() {
    let msg = build_seed_message("work", "-100200300", "789", "draft the RFC", "555");
    assert_eq!(msg.reply_target, "-100200300:789");
    assert_eq!(msg.thread_ts.as_deref(), Some("789"));
    assert_eq!(msg.conversation_scope, ChannelConversationScope::ReplyTarget);
    assert!(msg.explicitly_addressed);
    assert_eq!(msg.content, "draft the RFC");
    assert_eq!(msg.channel, "telegram");
    assert_eq!(msg.channel_alias.as_deref(), Some("work"));
    assert_eq!(msg.sender, "555");
    assert_eq!(msg.id, "telegram_-100200300_seed_789");
}

// ── Delivery body builder ───────────────────────────────────────────

#[test]
fn delivery_body_includes_string_message_thread_id_when_set() {
    let body = build_telegram_send_body("-100200300", Some("789"), "hi", None);
    assert_eq!(
        body.get("message_thread_id"),
        Some(&Value::String("789".to_string())),
        "message_thread_id must be the string form"
    );
    assert_eq!(body.get("chat_id"), Some(&Value::String("-100200300".into())));
}

#[test]
fn delivery_body_omitted_when_absent() {
    let body = build_telegram_send_body("-100200300", None, "hi", Some("HTML"));
    assert!(body.get("message_thread_id").is_none());
    assert_eq!(body.get("parse_mode"), Some(&Value::String("HTML".into())));
}

#[test]
fn delivery_bodies_are_exact() {
    assert_eq!(
        build_telegram_send_body("1", None, "é \"q\"", None),
        json(r#"{ "chat_id": "1", "text": "é \"q\"" }"#)
    );
    assert_eq!(
        build_telegram_send_body("1", Some("2"), "t", Some("HTML")),
        json(r#"{ "chat_id": "1", "text": "t", "parse_mode": "HTML", "message_thread_id": "2" }"#)
    );
}
