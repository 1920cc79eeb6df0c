//! The laws on concrete values: several calls together, from message to registry.

use serde_json::Value;
use std::sync::Arc;
use telegram_topics::commands::{is_owner, parse_topic_command, TopicCommand};
use telegram_topics::events::{parse_forum_service_event, ForumServiceEvent};
use telegram_topics::forum_api::{
    build_close_forum_topic_body, build_create_forum_topic_body, build_edit_forum_topic_body,
    build_get_chat_body, build_get_chat_member_body, build_reopen_forum_topic_body,
    build_telegram_send_body, parse_create_forum_topic_response,
};
use telegram_topics::memorizer_bridge::{
    build_rich_mc_send_body, memq_callback_data, parse_memq_callback, HttpBridgeTransport,
    PendingQuestion,
};
use telegram_topics::registry::{TopicEntry, TopicRegistry, TopicStatus};
use telegram_topics::seed::build_seed_message;
use telegram_topics::tools::telegram_mc_choice::TelegramMcChoiceTool;
use telegram_topics::tools::telegram_topic::TelegramTopicTool;
use telegram_topics::tools::{Config, TopicsConfig};

fn json(text: &str) -> Value {
    serde_json::from_str(text).unwrap()
}

fn event(text: &str) -> ForumServiceEvent {
    parse_forum_service_event(&json(text)).unwrap()
}

#[test]
fn created_topic_meets_its_events() {
    let id = parse_create_forum_topic_response(&json(
        r#"{ "ok": true, "result": { "message_thread_id": 789, "name": "Design" } }"#,
    ))
    .unwrap();
    let mut reg = TopicRegistry::default();
    reg.upsert_created("-1", &id.to_string(), "Design", Some("the RFC".into()), 10);
    reg.apply_event("-1", &event(r#"{ "message_thread_id": 789, "forum_topic_closed": {} }"#), 20);
    assert_eq!(
        reg.get("-1", "789"),
        Some(&TopicEntry {
            name: "Design".into(),
            status: TopicStatus::Closed,
            purpose: Some("the RFC".into()),
            created_at: 10,
            updated_at: 20,
        })
    );
    assert_eq!(reg.list_for_chat("-1").len(), 1);
}

#[test]
fn different_topics_stay_apart() {
    let mut reg = TopicRegistry::default();
    for id in ["7", "-7", "70", "0"] {
        let created = format!(
            r#"{{ "message_thread_id": {id}, "forum_topic_created": {{ "name": "t{id}" }} }}"#
        );
        reg.apply_event("c", &event(&created), 1);
    }
    let before = reg.clone();
    reg.apply_event("c", &event(r#"{ "message_thread_id": 7, "forum_topic_closed": {} }"#), 2);
    reg.apply_event("d", &event(r#"{ "message_thread_id": 70, "forum_topic_closed": {} }"#), 2);
    assert_eq!(reg.get("c", "7").unwrap().status, TopicStatus::Closed);
    for id in ["-7", "70", "0"] {
        assert_eq!(reg.get("c", id), before.get("c", id));
    }
}

#[test]
fn updates_touch_one_topic() {
    let mut reg = TopicRegistry::default();
    reg.upsert_created("c", "1", "one", None, 1);
    reg.upsert_created("c", "2", "two", None, 1);
    reg.upsert_created("d", "1", "other", None, 1);
    let before = reg.clone();
    reg.upsert_created("c", "1", "uno", Some("p".into()), 2);
    reg.rename("c", "1", "eins", 3);
    reg.set_status("c", "1", TopicStatus::Closed, 4);
    assert_eq!(reg.get("c", "2"), before.get("c", "2"));
    assert_eq!(reg.get("d", "1"), before.get("d", "1"));
    assert_eq!(reg.get("c", "1").unwrap().created_at, 1);
}

#[test]
fn topics_are_found_by_the_names_that_commands_give() {
    let mut reg = TopicRegistry::default();
    for (text, thread) in [("/new_topic  Ops Room | on call ", "10"), ("/new_topic\tDesign", "20")] {
        match parse_topic_command(text) {
            Some(TopicCommand::NewTopic { name, brief }) => {
                reg.upsert_created("c", thread, &name, brief, 1);
            }
            other => panic!("{other:?}"),
        }
    }
    assert_eq!(reg.resolve_thread_id_by_name("c", "OPS ROOM "), Some("10".to_string()));
    assert_eq!(reg.get("c", "10").unwrap().purpose.as_deref(), Some("on call"));
    if let Some(TopicCommand::RenameTopic { new_name }) = parse_topic_command("/rename_topic \n Crew ") {
        reg.rename("c", "20", &new_name, 2);
    }
    assert_eq!(reg.resolve_thread_id_by_name("c", "crew"), Some("20".to_string()));
    assert_eq!(reg.resolve_thread_id_by_name("c", "design"), None);
    // A name that was not trimmed is not found by itself.
    reg.upsert_created("c", "30", " x ", None, 3);
    assert_eq!(reg.resolve_thread_id_by_name("c", " x "), None);
}

#[test]
fn new_topic_commands_read_name_and_brief() {
    for gap in [" ", "\n", "\u{2003}"] {
        for (name, brief, kept) in [
            ("a b", " c | d ", Some("c | d")),
            (" a b ", " \t", None),
            ("a b", "", None),
        ] {
            assert_eq!(
                parse_topic_command(&format!("/new_topic{gap}{name}|{brief}")),
                Some(TopicCommand::NewTopic {
                    name: "a b".into(),
                    brief: kept.map(str::to_string),
                })
            );
        }
    }
}

#[test]
fn bot_name_makes_no_difference() {
    for command in ["/new_topic", "/topics", "/rename_topic", "/close_topic", "/reopen_topic", "/chat_id", "/x"] {
        for rest in ["", " a | b", "\n@c"] {
            assert_eq!(
                parse_topic_command(&format!("{command}@my_bot{rest}")),
                parse_topic_command(&format!("  {command}{rest}"))
            );
        }
    }
}

#[test]
fn owner_list_order_makes_no_difference() {
    let a = vec!["1".to_string(), "2".to_string(), "3".to_string()];
    let b = vec!["3".to_string(), "1".to_string(), "3".to_string(), "2".to_string()];
    for id in ["1", "2", "3", "4", ""] {
        assert_eq!(is_owner(Some(id), &a), is_owner(Some(id), &b));
    }
}

#[test]
fn bodies_name_their_chat_and_thread() {
    let with_thread = [
        build_edit_forum_topic_body("-1", "5", "n"),
        build_close_forum_topic_body("-1", "5"),
        build_reopen_forum_topic_body("-1", "5"),
        build_telegram_send_body("-1", Some("5"), "t", Some("HTML")),
    ];
    for body in &with_thread {
        assert_eq!(body["chat_id"], "-1");
        assert_eq!(body["message_thread_id"], "5");
    }
    let without = [
        build_create_forum_topic_body("-1", "n", Some(0)),
        build_get_chat_body("-1"),
        build_get_chat_member_body("-1", 5),
        build_telegram_send_body("-1", None, "t", None),
    ];
    for body in &without {
        assert_eq!(body["chat_id"], "-1");
        assert!(body.get("message_thread_id").is_none());
    }
}

#[test]
fn taps_answer_the_question_they_were_made_for() {
    for options in [vec!["a", "b", "c"], vec!["$a$", "b"]] {
        let q = PendingQuestion {
            short_qid: "deck:7:q".into(),
            deck_id: String::new(),
            qtype: "mc".into(),
            front: "f".into(),
            options: options.iter().map(|o| o.to_string()).collect(),
        };
        let body = build_rich_mc_send_body("-1", None, &q).unwrap();
        let rows = body["reply_markup"]["inline_keyboard"].as_array().unwrap();
        assert_eq!(rows.len(), q.options.len());
        for (i, row) in rows.iter().enumerate() {
            let tap = parse_memq_callback(row[0]["callback_data"].as_str().unwrap()).unwrap();
            assert_eq!((tap.short_qid.as_str(), tap.choice_idx), ("deck:7:q", i));
        }
        assert!(body["rich_message"]["markdown"].as_str().unwrap().starts_with("f"));
    }
}

#[test]
fn closing_slashes_make_no_difference() {
    for url in ["http://a", "http://a/", "http://a///"] {
        assert_eq!(HttpBridgeTransport::new(url, "t").answer_url(), "http://a/bridge/v1/answer");
    }
}

#[test]
fn seed_target_is_cut_back_into_chat_and_thread() {
    let msg = build_seed_message("w", "-100", "7:8", "b", "s");
    assert_eq!(msg.reply_target.split_once(':'), Some(("-100", "7:8")));
}

#[test]
fn tools_refuse_before_they_read_arguments() {
    let mut config = Config::default();
    config.set_telegram("off", TopicsConfig::default());
    let config = Arc::new(config);
    for alias in ["off", "absent"] {
        let topic = TelegramTopicTool::new(config.clone(), alias);
        let choice = TelegramMcChoiceTool::new(config.clone(), alias);
        let empty = json("{}");
        for args in [r#"{ "action": "list" }"#, r#"{ "prompt": "p", "options": ["a", "b"] }"#, "null"] {
            assert_eq!(topic.begin(&json(args)), topic.begin(&empty));
            assert_eq!(choice.begin(&json(args)), choice.begin(&empty));
        }
    }
}

#[test]
fn other_arguments_change_nothing() {
    let mut config = Config::default();
    config.set_telegram(
        "w",
        TopicsConfig { enabled: true, agent_managed: true, group_id: Some("-1".into()) },
    );
    let config = Arc::new(config);
    let topic = TelegramTopicTool::new(config.clone(), "w");
    let choice = TelegramMcChoiceTool::new(config, "w");
    let plain = json(r#"{ "action": "close", "name": "n", "prompt": "p", "options": ["a", "b"] }"#);
    let mut noisy = plain.clone();
    for key in ["chat_id", "group_id", "alias", "Name", ""] {
        noisy[key] = Value::String("-999".into());
    }
    assert_eq!(topic.begin(&noisy), topic.begin(&plain));
    assert_eq!(choice.begin(&noisy), choice.begin(&plain));
    assert_eq!(topic.begin(&plain).unwrap().chat_id, "-1");
}

#[test]
fn a_saved_registry_loads_as_it_was() {
    let mut reg = TopicRegistry::default();
    reg.upsert_created("b", "9", "n", None, 1);
    reg.upsert_created("b", "10", "m", Some("p".into()), 2);
    reg.set_status("a", "1", TopicStatus::Closed, 3);
    let rows = reg.to_rows();
    let ids: Vec<&str> = rows.iter().map(|(chat, _)| chat.as_str()).collect();
    assert_eq!(ids, ["a", "b"]);
    assert_eq!(rows[1].1[0].0, "10");
    let loaded = TopicRegistry::from_rows(rows.clone());
    assert_eq!(loaded, reg);
    assert_eq!(loaded.to_rows(), rows);
}

#[test]
fn case_of_a_name_makes_no_difference() {
    let mut reg = TopicRegistry::default();
    reg.upsert_created("c", "1", "ÜBER", None, 1);
    reg.upsert_created("c", "2", "Ops", None, 1);
    for name in ["über", "ÜBER", " Über\n", "üBER"] {
        assert_eq!(reg.resolve_thread_id_by_name("c", name), Some("1".to_string()), "{name}");
    }
    for name in ["ops", "OPS", "\toPS"] {
        assert_eq!(reg.resolve_thread_id_by_name("c", name), Some("2".to_string()), "{name}");
    }
    assert_eq!(reg.resolve_thread_id_by_name("c", "uber"), None);
}

#[test]
fn callback_data_is_unique() {
    let ids = ["", ":", "1", "1:", ":1", "q:1", "q"];
    let all: Vec<(&str, usize)> =
        ids.iter().flat_map(|q| [0, 1, 10, 11].map(|i| (*q, i))).collect();
    for a in &all {
        for b in &all {
            assert_eq!(memq_callback_data(a.0, a.1) == memq_callback_data(b.0, b.1), a == b);
        }
    }
}

#[test]
fn plans_rest_on_the_arguments_of_the_schema() {
    let mut config = Config::default();
    config.set_telegram(
        "w",
        TopicsConfig { enabled: true, agent_managed: true, group_id: Some("-1".into()) },
    );
    let config = Arc::new(config);
    let topic = TelegramTopicTool::new(config.clone(), "w");
    let choice = TelegramMcChoiceTool::new(config, "w");
    assert_eq!(
        topic.begin(&json(r#"{ "name": "n", "action": "close", "x": 1 }"#)),
        topic.begin(&json(r#"{ "action": "close", "prompt": "p", "name": "n" }"#))
    );
    assert_eq!(
        choice.begin(&json(r#"{ "prompt": "p", "options": ["a", "b"], "name": "n" }"#)),
        choice.begin(&json(r#"{ "options": ["a", "b"], "y": [], "prompt": "p" }"#))
    );
    assert_eq!(topic.begin(&json("[]")), topic.begin(&json("7")));
    // Every action of the schema is accepted, where both names are given.
    let schema = topic.parameters_schema();
    let actions = schema["properties"]["action"]["enum"].as_array().unwrap();
    assert_eq!(actions.len(), 5);
    for action in actions {
        let mut args = json(r#"{ "name": "n", "new_name": "m" }"#);
        args["action"] = action.clone();
        assert!(topic.begin(&args).is_ok());
    }
}
