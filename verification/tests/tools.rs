//! The agent-callable tools and the operations behind them.

use serde_json::Value;
use std::sync::Arc;
use telegram_topics::choices::{no_choice_op_handler_error, ChoiceOp, ChoiceOutcome};
use telegram_topics::tools::telegram_mc_choice::{ChoiceCall, TelegramMcChoiceTool};
use telegram_topics::tools::telegram_topic::{TelegramTopicTool, TopicCall};
use telegram_topics::tools::{reject, str_arg, Config, ToolResult, TopicsConfig};
use telegram_topics::topics::{no_topic_op_handler_error, TopicOp, TopicOpOutcome};

fn json(text: &str) -> Value {
    serde_json::from_str(text).unwrap()
}

fn config_with_topics(topics: TopicsConfig) -> Arc<Config> {
    let mut config = Config::default();
    config.set_telegram("work", topics);
    Arc::new(config)
}

fn topic_tool(topics: TopicsConfig) -> TelegramTopicTool {
    TelegramTopicTool::new(config_with_topics(topics), "work")
}

fn choice_tool(topics: TopicsConfig) -> TelegramMcChoiceTool {
    TelegramMcChoiceTool::new(config_with_topics(topics), "work")
}

fn granted() -> TopicsConfig {
    TopicsConfig {
        enabled: true,
        agent_managed: true,
        group_id: Some("-100200300".into()),
    }
}

fn topic_error(tool: &TelegramTopicTool, args: &str) -> String {
    let res = tool.begin(&json(args)).unwrap_err();
    assert!(!res.success);
    assert_eq!(res.output, "");
    res.error.unwrap()
}

fn choice_error(tool: &TelegramMcChoiceTool, args: &str) -> String {
    let res = tool.begin(&json(args)).unwrap_err();
    assert!(!res.success);
    assert_eq!(res.output, "");
    res.error.unwrap()
}

fn topic_op(args: &str) -> TopicOp {
    topic_tool(granted()).begin(&json(args)).unwrap().op
}

// ── Handlers ────────────────────────────────────────────────────────

#[test]
fn choices_no_handler_error_is_clear() {
    let err = no_choice_op_handler_error();
    let msg = err.to_string();
    assert!(msg.contains("no handler"), "message should name the cause: {msg}");
    assert!(
        msg.contains("register_choice_op_fn"),
        "message should point at the wiring: {msg}"
    );
}

#[test]
fn topics_no_handler_error_is_clear() {
    let err = no_topic_op_handler_error();
    let msg = err.to_string();
    assert!(msg.contains("no handler"), "message should name the cause: {msg}");
    assert!(
        msg.contains("register_topic_op_fn"),
        "message should point at the wiring: {msg}"
    );
}

// ── Multiple choice ─────────────────────────────────────────────────

#[test]
fn rejects_when_disabled() {
    let t = choice_tool(TopicsConfig {
        enabled: false,
        group_id: Some("-100200300".into()),
        ..Default::default()
    });
    let err = choice_error(&t, r#"{ "prompt": "Pick one", "options": ["A", "B"] }"#);
    assert!(err.contains("not enabled"));
}

#[test]
fn telegram_mc_choice_rejects_when_group_id_unset() {
    let t = choice_tool(TopicsConfig {
        enabled: true,
        group_id: None,
        ..Default::default()
    });
    let err = choice_error(&t, r#"{ "prompt": "Pick one", "options": ["A", "B"] }"#);
    assert!(err.contains("target group"));
}

#[test]
fn rejects_when_channel_not_configured() {
    let t = TelegramMcChoiceTool::new(Arc::new(Config::default()), "missing");
    let err = choice_error(&t, r#"{ "prompt": "Pick one", "options": ["A", "B"] }"#);
    assert!(err.contains("not configured"));
    assert_eq!(err, "Telegram channel 'missing' is not configured.");
}

#[test]
fn rejects_empty_prompt() {
    let err = choice_error(&choice_tool(granted()), r#"{ "prompt": "  ", "options": ["A", "B"] }"#);
    assert!(err.contains("prompt"));
}

#[test]
fn rejects_too_few_options() {
    let err = choice_error(&choice_tool(granted()), r#"{ "prompt": "Pick one", "options": ["A"] }"#);
    assert!(err.contains("options"));
}

#[test]
fn rejects_too_many_options() {
    let opts: Vec<Value> = (0..11).map(|i| Value::String(format!("opt{i}"))).collect();
    let mut args = json(r#"{ "prompt": "Pick one" }"#);
    args["options"] = Value::Array(opts);
    let res = choice_tool(granted()).begin(&args).unwrap_err();
    assert!(!res.success);
    let err = res.error.unwrap();
    assert!(err.contains("options"));
    assert_eq!(err, "`options` must have between 2 and 10 non-empty entries (got 11).");
}

#[test]
fn uses_config_group_id_not_args() {
    // The LLM tries to sneak in a different chat via args — it must be ignored.
    let call = choice_tool(granted())
        .begin(&json(
            r#"{ "prompt": "Pick one", "options": ["A", "B"], "chat_id": "-999", "group_id": "-999" }"#,
        ))
        .unwrap();
    assert_eq!(
        call,
        ChoiceCall {
            alias: "work".into(),
            chat_id: "-100200300".into(),
            op: ChoiceOp::RenderChoice {
                prompt: "Pick one".into(),
                options: vec!["A".into(), "B".into()],
            },
        }
    );
}

#[test]
fn choice_options_are_filtered_and_trimmed() {
    let call = choice_tool(TopicsConfig {
        group_id: Some(" \t-5\n".into()),
        agent_managed: false,
        ..granted()
    })
    .begin(&json(r#"{ "prompt": " p ", "options": [" a ", "", 7, null, "  ", ["x"], "b\n"] }"#))
    .unwrap();
    assert_eq!(call.chat_id, "-5");
    assert_eq!(
        call.op,
        ChoiceOp::RenderChoice { prompt: "p".into(), options: vec!["a".into(), "b".into()] }
    );
    let t = choice_tool(granted());
    for n in [2, 10] {
        let opts: Vec<String> = (0..n).map(|i| format!("\"{i}\"")).collect();
        let args = json(&format!(r#"{{ "prompt": "p", "options": [{}] }}"#, opts.join(",")));
        assert!(t.begin(&args).is_ok());
    }
}

#[test]
fn choice_errors_are_exact() {
    let t = choice_tool(granted());
    assert_eq!(choice_error(&t, "{}"), "`prompt` must be a non-empty string.");
    assert_eq!(choice_error(&t, r#"{ "prompt": 4 }"#), "`prompt` must be a non-empty string.");
    assert_eq!(
        choice_error(&t, r#"{ "prompt": "p" }"#),
        "`options` must have between 2 and 10 non-empty entries (got 0)."
    );
    assert_eq!(
        choice_error(&t, r#"{ "prompt": "p", "options": "ab" }"#),
        "`options` must have between 2 and 10 non-empty entries (got 0)."
    );
    assert_eq!(
        choice_error(&choice_tool(TopicsConfig { enabled: false, ..granted() }), "{}"),
        "Multiple-choice prompts are not enabled for this Telegram channel \
         (set [channels.telegram.<alias>.topics].enabled = true)."
    );
    assert_eq!(
        choice_error(&choice_tool(TopicsConfig { group_id: Some("  ".into()), ..granted() }), "{}"),
        "No target group is configured \
         (set [channels.telegram.<alias>.topics].group_id = \"<chat_id>\")."
    );
}

#[test]
fn choice_outcomes() {
    let t = choice_tool(granted());
    assert_eq!(
        t.finish(Ok(ChoiceOutcome {
            chosen_index: Some(0),
            chosen_text: Some("A".into()),
            message: "chose A".into(),
        })),
        ToolResult { success: true, output: "chose A".into(), error: None }
    );
    assert_eq!(
        t.finish(Err("boom: cause".into())),
        ToolResult {
            success: false,
            output: String::new(),
            error: Some("multiple-choice prompt failed: boom: cause".into()),
        }
    );
}

#[test]
fn choice_tool_introduces_itself() {
    let t = choice_tool(granted());
    assert_eq!(t.name(), "telegram_mc_choice");
    assert_eq!(TelegramMcChoiceTool::NAME, "telegram_mc_choice");
    assert!(t.description().starts_with("Ask the user a multiple-choice question"));
    assert_eq!(
        t.parameters_schema(),
        json(
            r#"{
                "type": "object",
                "properties": {
                    "prompt": {
                        "type": "string",
                        "description": "The question or prompt to show above the buttons."
                    },
                    "options": {
                        "type": "array",
                        "items": { "type": "string" },
                        "minItems": 2,
                        "maxItems": 10,
                        "description": "2 to 10 answer options, each rendered as its own inline button."
                    }
                },
                "required": ["prompt", "options"]
            }"#
        )
    );
}

// ── Topics ──────────────────────────────────────────────────────────

#[test]
fn rejects_when_topics_disabled() {
    let t = topic_tool(TopicsConfig {
        enabled: false,
        group_id: Some("-100200300".into()),
        ..Default::default()
    });
    assert!(topic_error(&t, r#"{ "action": "list" }"#).contains("not enabled"));
}

#[test]
fn rejects_when_agent_management_disabled() {
    let t = topic_tool(TopicsConfig {
        enabled: true,
        agent_managed: false,
        group_id: Some("-100200300".into()),
    });
    assert!(topic_error(&t, r#"{ "action": "list" }"#).contains("Agent-managed"));
}

#[test]
fn telegram_topic_rejects_when_group_id_unset() {
    let t = topic_tool(TopicsConfig {
        enabled: true,
        agent_managed: true,
        group_id: None,
    });
    assert!(topic_error(&t, r#"{ "action": "list" }"#).contains("master forum group"));
}

#[test]
fn create_uses_config_group_id_not_args() {
    // The LLM tries to sneak in a different chat via args — it must be ignored.
    let call = topic_tool(granted())
        .begin(&json(
            r#"{
                "action": "create",
                "name": "Design",
                "brief": "draft the RFC",
                "chat_id": "-999",
                "group_id": "-999"
            }"#,
        ))
        .unwrap();
    assert_eq!(
        call,
        TopicCall {
            alias: "work".into(),
            chat_id: "-100200300".into(),
            op: TopicOp::Create { name: "Design".into(), brief: Some("draft the RFC".into()) },
        }
    );
}

#[test]
fn list_builds_list_op() {
    let call = topic_tool(granted()).begin(&json(r#"{ "action": "list" }"#)).unwrap();
    assert_eq!(call.alias, "work");
    assert_eq!(call.chat_id, "-100200300");
    assert_eq!(call.op, TopicOp::List);
}

#[test]
fn rename_requires_new_name() {
    let err = topic_error(&topic_tool(granted()), r#"{ "action": "rename", "name": "Design" }"#);
    assert!(err.contains("new_name"));
}

#[test]
fn unknown_action_rejected() {
    let err = topic_error(&topic_tool(granted()), r#"{ "action": "destroy" }"#);
    assert!(err.contains("Unknown action"));
    assert_eq!(
        err,
        "Unknown action \"destroy\"; use one of create|list|rename|close|reopen."
    );
}

#[test]
fn topic_operations() {
    assert_eq!(
        topic_op(r#"{ "action": " create ", "name": " n ", "brief": "  " }"#),
        TopicOp::Create { name: "n".into(), brief: None }
    );
    assert_eq!(
        topic_op(r#"{ "action": "rename", "name": "a", "new_name": "b" }"#),
        TopicOp::Rename { name: "a".into(), new_name: "b".into() }
    );
    assert_eq!(
        topic_op(r#"{ "action": "close", "name": "a" }"#),
        TopicOp::Close { name: "a".into() }
    );
    assert_eq!(
        topic_op(r#"{ "action": "reopen", "name": "a" }"#),
        TopicOp::Reopen { name: "a".into() }
    );
}

#[test]
fn topic_errors_are_exact() {
    let t = topic_tool(granted());
    assert_eq!(
        topic_error(&t, r#"{ "action": "create" }"#),
        "`create` requires a non-empty 'name'."
    );
    assert_eq!(
        topic_error(&t, r#"{ "action": "rename", "new_name": "x" }"#),
        "`rename` requires both 'name' and 'new_name'."
    );
    assert_eq!(
        topic_error(&t, r#"{ "action": "close", "name": 1 }"#),
        "`close` requires a non-empty 'name'."
    );
    assert_eq!(
        topic_error(&t, r#"{ "action": "reopen", "name": " " }"#),
        "`reopen` requires a non-empty 'name'."
    );
    assert_eq!(
        topic_error(&t, r#"{ "action": "a\"b\n" }"#),
        format!("Unknown action {:?}; use one of create|list|rename|close|reopen.", "a\"b")
    );
    assert_eq!(
        topic_error(&t, "[]"),
        "Unknown action \"\"; use one of create|list|rename|close|reopen."
    );
    assert_eq!(
        topic_error(&topic_tool(TopicsConfig { enabled: false, ..granted() }), "{}"),
        "Forum topics are not enabled for this Telegram channel \
         (set [channels.telegram.<alias>.topics].enabled = true)."
    );
    assert_eq!(
        topic_error(&topic_tool(TopicsConfig { agent_managed: false, ..granted() }), "{}"),
        "Agent-managed topic operations are disabled \
         (set [channels.telegram.<alias>.topics].agent_managed = true)."
    );
    assert_eq!(
        topic_error(&topic_tool(TopicsConfig { group_id: Some("\u{a0}".into()), ..granted() }), "{}"),
        "No master forum group is configured \
         (set [channels.telegram.<alias>.topics].group_id = \"<chat_id>\")."
    );
    assert_eq!(
        topic_error(&TelegramTopicTool::new(config_with_topics(granted()), "home"), "{}"),
        "Telegram channel 'home' is not configured."
    );
}

#[test]
fn topic_outcomes() {
    let t = topic_tool(granted());
    assert_eq!(
        t.finish(Ok(TopicOpOutcome { message: "done".into(), thread_id: Some("1".into()) })),
        ToolResult { success: true, output: "done".into(), error: None }
    );
    assert_eq!(
        t.finish(Err(no_topic_op_handler_error())).error.unwrap(),
        format!("topic operation failed: {}", no_topic_op_handler_error())
    );
}

#[test]
fn topic_tool_introduces_itself() {
    let t = topic_tool(granted());
    assert_eq!(t.name(), "telegram_topic");
    assert_eq!(TelegramTopicTool::NAME, "telegram_topic");
    assert!(t.description().starts_with("Create and manage Telegram forum topics"));
    assert_eq!(
        t.parameters_schema(),
        json(
            r#"{
                "type": "object",
                "properties": {
                    "action": {
                        "type": "string",
                        "enum": ["create", "list", "rename", "close", "reopen"],
                        "description": "The topic operation to perform."
                    },
                    "name": {
                        "type": "string",
                        "description": "Topic name. Required for create/rename/close/reopen; for rename it is the current name."
                    },
                    "brief": {
                        "type": "string",
                        "description": "Optional. For `create`, records the topic's purpose/goal (stored with the topic). Note: the tool does not auto-start a turn — send a message into the new topic to begin work there."
                    },
                    "new_name": {
                        "type": "string",
                        "description": "For `rename`: the new topic name."
                    }
                },
                "required": ["action"]
            }"#
        )
    );
}

// ── Shared ──────────────────────────────────────────────────────────

#[test]
fn config_replaces_a_channel() {
    let mut config = Config::default();
    config.set_telegram("work", TopicsConfig::default());
    config.set_telegram("work", granted());
    config.set_telegram("home", TopicsConfig::default());
    assert_eq!(config.telegram("work"), Some(&granted()));
    assert_eq!(config.telegram("home"), Some(&TopicsConfig::default()));
    assert_eq!(config.telegram("w"), None);
}

#[test]
fn refusals_and_text_arguments() {
    assert_eq!(
        reject("no"),
        ToolResult { success: false, output: String::new(), error: Some("no".into()) }
    );
    let args = json(r#"{ "a": " x ", "b": 1 }"#);
    assert_eq!(str_arg(&args, "a"), "x");
    assert_eq!(str_arg(&args, "b"), "");
    assert_eq!(str_arg(&args, "c"), "");
}
