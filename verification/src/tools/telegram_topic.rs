//! Agent-callable Telegram forum-topic tool.
//!
//! Lets the LLM create and manage forum topics in a single, operator-fixed
//! master group. Every topic is an isolated conversation session, so the agent
//! can spin up and steer parallel work threads on its own.
//!
//! The target group comes only from the configured `group_id`: the model never
//! supplies a `chat_id`. The tool refuses to act unless the feature is `enabled`,
//! `agent_managed` is true, and a `group_id` is configured.

use crate::json::{items_of, json_of, list_value, object_value, set_member, text_value, Json};
use crate::text::{debug_text, quoted, same};
use crate::tools::{build_object_schema, build_text_parameter, not_configured, object_schema, refusal, reject, reject_alias, str_arg, success, target_group, text_arg, text_parameter, Answer, Config, Plan, Settings, ToolResult};
use crate::topics::{TopicOp, TopicOpOutcome, TopicRequest};
use serde_json::Value;
use std::sync::Arc;
use vstd::prelude::*;

verus! {

/// Agent-callable forum-topic management tool bound to one Telegram alias.
pub struct TelegramTopicTool {
    config: Arc<Config>,
    alias: String,
}

/// An operation to run, with the channel and the chat to run it in.
#[derive(Debug, Clone, PartialEq, Eq)]
pub struct TopicCall {
    pub alias: String,
    pub chat_id: String,
    pub op: TopicOp,
}

/// The operation that the arguments ask for, or why they ask for none.
pub open spec fn requested(args: Json) -> Result<TopicRequest, Seq<char>> {
    let action = text_arg(args, "action"@);
    let name = text_arg(args, "name"@);
    if action == "create"@ {
        let brief = text_arg(args, "brief"@);
        if name.len() == 0 {
            Err("`create` requires a non-empty 'name'."@)
        } else {
            Ok(
                TopicRequest::Create {
                    name,
                    brief: if brief.len() == 0 {
                        None
                    } else {
                        Some(brief)
                    },
                },
            )
        }
    } else if action == "list"@ {
        Ok(TopicRequest::List)
    } else if action == "rename"@ {
        let new_name = text_arg(args, "new_name"@);
        if name.len() == 0 || new_name.len() == 0 {
            Err("`rename` requires both 'name' and 'new_name'."@)
        } else {
            Ok(TopicRequest::Rename { name, new_name })
        }
    } else if action == "close"@ {
        if name.len() == 0 {
            Err("`close` requires a non-empty 'name'."@)
        } else {
            Ok(TopicRequest::Close { name })
        }
    } else if action == "reopen"@ {
        if name.len() == 0 {
            Err("`reopen` requires a non-empty 'name'."@)
        } else {
            Ok(TopicRequest::Reopen { name })
        }
    } else {
        Err(
            "Unknown action "@ + debug_text(action)
                + "; use one of create|list|rename|close|reopen."@,
        )
    }
}

/// What the tool makes of its configuration and its arguments.
pub open spec fn topic_plan(
    config: Map<Seq<char>, Settings>,
    alias: Seq<char>,
    args: Json,
) -> Plan<TopicRequest> {
    if !config.contains_key(alias) {
        Plan::Refuse(not_configured(alias))
    } else if !config[alias].enabled {
        Plan::Refuse(
            "Forum topics are not enabled for this Telegram channel (set [channels.telegram.<alias>.topics].enabled = true)."@,
        )
    } else if !config[alias].agent_managed {
        Plan::Refuse(
            "Agent-managed topic operations are disabled (set [channels.telegram.<alias>.topics].agent_managed = true)."@,
        )
    } else {
        match target_group(config[alias]) {
            None => Plan::Refuse(
                "No master forum group is configured (set [channels.telegram.<alias>.topics].group_id = \"<chat_id>\")."@,
            ),
            Some(chat_id) => match requested(args) {
                Ok(op) => Plan::Perform { chat_id, op },
                Err(reason) => Plan::Refuse(reason),
            },
        }
    }
}

/// The result of the tool, from the summary of an operation or from its error.
pub open spec fn topic_answer(reply: Result<Seq<char>, Seq<char>>) -> Answer {
    match reply {
        Ok(message) => success(message),
        Err(e) => refusal("topic operation failed: "@ + e),
    }
}

/// What the tool is for, told to the agent.
pub open spec fn tool_description() -> Seq<char> {
    "Create and manage Telegram forum topics in this bot's configured master group. Each topic is its own isolated conversation session, letting you open and steer parallel work threads. Actions: `create` (open a topic, optionally seeding it with a `brief`), `list` (show tracked topics and status), `rename`, `close`, `reopen`. Topics are addressed by name. The group is fixed by configuration — you cannot target an arbitrary chat."@
}

/// The actions that an agent can name.
pub open spec fn topic_actions() -> Seq<Json> {
    seq![
        Json::Text("create"@),
        Json::Text("list"@),
        Json::Text("rename"@),
        Json::Text("close"@),
        Json::Text("reopen"@),
    ]
}

/// The JSON schema of the arguments.
pub open spec fn topic_schema() -> Json {
    object_schema(
        map![
            "action"@ => Json::Object(
                map![
                    "type"@ => Json::Text("string"@),
                    "enum"@ => Json::List(topic_actions()),
                    "description"@ => Json::Text("The topic operation to perform."@),
                ],
            ),
            "name"@ => text_parameter(
                "Topic name. Required for create/rename/close/reopen; for rename it is the current name."@,
            ),
            "brief"@ => text_parameter(
                "Optional. For `create`, records the topic's purpose/goal (stored with the topic). Note: the tool does not auto-start a turn — send a message into the new topic to begin work there."@,
            ),
            "new_name"@ => text_parameter("For `rename`: the new topic name."@),
        ],
        seq![Json::Text("action"@)],
    )
}

/// Reads the requested operation from the arguments.
fn read_request(args: &Value) -> (r: Result<TopicOp, String>)
    ensures
        (match r {
            Ok(op) => Ok(op@),
            Err(reason) => Err(reason@),
        }) == requested(json_of(*args)),
{
    let action = str_arg(args, "action");
    let name = str_arg(args, "name");
    let nameless = name.as_str().is_empty();
    if same(action.as_str(), "create") {
        if nameless {
            return Err("`create` requires a non-empty 'name'.".to_owned());
        }
        let brief = str_arg(args, "brief");
        let brief = if brief.as_str().is_empty() {
            None
        } else {
            Some(brief)
        };
        Ok(TopicOp::Create { name, brief })
    } else if same(action.as_str(), "list") {
        Ok(TopicOp::List)
    } else if same(action.as_str(), "rename") {
        let new_name = str_arg(args, "new_name");
        if nameless || new_name.as_str().is_empty() {
            return Err("`rename` requires both 'name' and 'new_name'.".to_owned());
        }
        Ok(TopicOp::Rename { name, new_name })
    } else if same(action.as_str(), "close") {
        if nameless {
            return Err("`close` requires a non-empty 'name'.".to_owned());
        }
        Ok(TopicOp::Close { name })
    } else if same(action.as_str(), "reopen") {
        if nameless {
            return Err("`reopen` requires a non-empty 'name'.".to_owned());
        }
        Ok(TopicOp::Reopen { name })
    } else {
        let mut reason = "Unknown action ".to_owned();
        reason.append(quoted(action.as_str()).as_str());
        reason.append("; use one of create|list|rename|close|reopen.");
        Err(reason)
    }
}

impl TelegramTopicTool {
    pub const NAME: &'static str = "telegram_topic";

    /// The channels that the tool knows.
    pub closed spec fn channels(self) -> Map<Seq<char>, Settings> {
        self.config@
    }

    /// The channel that the tool is bound to.
    pub closed spec fn channel(self) -> Seq<char> {
        self.alias@
    }

    pub fn new(config: Arc<Config>, alias: &str) -> (r: Self)
        ensures
            r.channels() == config@,
            r.channel() == alias@,
    {
        TelegramTopicTool { config, alias: alias.to_owned() }
    }

    /// The name by which an agent calls the tool.
    pub fn name(&self) -> (r: &str)
        ensures
            r@ == Self::NAME@,
    {
        Self::NAME
    }

    /// What the tool is for, told to the agent.
    pub fn description(&self) -> (r: &str)
        ensures
            r@ == tool_description(),
    {
        "Create and manage Telegram forum topics in this bot's configured master group. Each topic is its own isolated conversation session, letting you open and steer parallel work threads. Actions: `create` (open a topic, optionally seeding it with a `brief`), `list` (show tracked topics and status), `rename`, `close`, `reopen`. Topics are addressed by name. The group is fixed by configuration — you cannot target an arbitrary chat."
    }

    /// The JSON schema of the arguments.
    pub fn parameters_schema(&self) -> (r: Value)
        ensures
            json_of(r) == topic_schema(),
    {
        let mut actions: Vec<Value> = Vec::new();
        actions.push(text_value("create"));
        actions.push(text_value("list"));
        actions.push(text_value("rename"));
        actions.push(text_value("close"));
        actions.push(text_value("reopen"));
        assert(items_of(actions@) =~= topic_actions());
        let mut action = object_value();
        set_member(&mut action, "type", text_value("string"));
        set_member(&mut action, "enum", list_value(actions));
        set_member(&mut action, "description", text_value("The topic operation to perform."));
        let mut properties = object_value();
        set_member(&mut properties, "action", action);
        set_member(
            &mut properties,
            "name",
            build_text_parameter(
                "Topic name. Required for create/rename/close/reopen; for rename it is the current name.",
            ),
        );
        set_member(
            &mut properties,
            "brief",
            build_text_parameter(
                "Optional. For `create`, records the topic's purpose/goal (stored with the topic). Note: the tool does not auto-start a turn — send a message into the new topic to begin work there.",
            ),
        );
        set_member(
            &mut properties,
            "new_name",
            build_text_parameter("For `rename`: the new topic name."),
        );
        let mut required: Vec<Value> = Vec::new();
        required.push(text_value("action"));
        assert(items_of(required@) =~= seq![Json::Text("action"@)]);
        build_object_schema(properties, required)
    }

    /// Decides which operation to run in which chat, if any.
    pub fn begin(&self, args: &Value) -> (r: Result<TopicCall, ToolResult>)
        ensures
            match topic_plan(self.channels(), self.channel(), json_of(*args)) {
                Plan::Perform { chat_id, op } => r matches Ok(call) && call.alias@
                    == self.channel() && call.chat_id@ == chat_id && call.op@ == op,
                Plan::Refuse(reason) => r matches Err(result) && result@ == refusal(reason),
            },
    {
        let topics = match self.config.telegram(self.alias.as_str()) {
            Some(topics) => topics,
            None => {
                return Err(reject_alias(self.alias.as_str()));
            },
        };
        if !topics.enabled {
            return Err(
                reject(
                    "Forum topics are not enabled for this Telegram channel (set [channels.telegram.<alias>.topics].enabled = true).",
                ),
            );
        }
        if !topics.agent_managed {
            return Err(
                reject(
                    "Agent-managed topic operations are disabled (set [channels.telegram.<alias>.topics].agent_managed = true).",
                ),
            );
        }
        let chat_id = match topics.group() {
            Some(id) => id,
            None => {
                return Err(
                    reject(
                        "No master forum group is configured (set [channels.telegram.<alias>.topics].group_id = \"<chat_id>\").",
                    ),
                );
            },
        };
        match read_request(args) {
            Ok(op) => Ok(TopicCall { alias: self.alias.clone(), chat_id, op }),
            Err(reason) => Err(reject(reason.as_str())),
        }
    }

    /// The result of the tool, from what the operation came back with: its outcome,
    /// or its error in words.
    pub fn finish(&self, reply: Result<TopicOpOutcome, String>) -> (r: ToolResult)
        ensures
            r@ == topic_answer(
                match reply {
                    Ok(outcome) => Ok(outcome.message@),
                    Err(e) => Err(e@),
                },
            ),
    {
        match reply {
            Ok(outcome) => ToolResult { success: true, output: outcome.message, error: None },
            Err(e) => {
                let mut reason = "topic operation failed: ".to_owned();
                reason.append(e.as_str());
                reject(reason.as_str())
            },
        }
    }
}

} // verus!
