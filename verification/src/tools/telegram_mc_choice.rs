//! Agent-callable Telegram multiple-choice tool.
//!
//! Renders a prompt with 2-10 options as native Telegram inline buttons in
//! this bot's configured master group, waits (bounded) for the user's tap,
//! and returns the chosen option to the calling agent. This lets the agent
//! ask a structured multiple-choice question instead of parsing a free-text
//! reply.
//!
//! The target group comes only from the configured `group_id`: the model never
//! supplies a `chat_id`. The tool refuses to act unless the feature is `enabled` and a
//! `group_id` is configured.

use crate::choices::{ChoiceOp, ChoiceOutcome, ChoiceRequest};
use crate::decimal::{decimal, push_decimal};
use crate::json::{int_value, items_of, json_of, member, object_value, set_member, text_value, Json};
use crate::text::{non_blank, strings_view, trim};
use crate::tools::{build_object_schema, build_text_parameter, not_configured, object_schema, refusal, reject, reject_alias, str_arg, success, target_group, text_arg, text_parameter, Answer, Config, Plan, Settings, ToolResult};
use serde_json::Value;
use std::sync::Arc;
use vstd::prelude::*;

verus! {

/// The fewest options that a question can have.
pub const MIN_OPTIONS: usize = 2;

/// The most options that a question can have.
pub const MAX_OPTIONS: usize = 10;

/// Agent-callable multiple-choice tool bound to one Telegram alias.
pub struct TelegramMcChoiceTool {
    config: Arc<Config>,
    alias: String,
}

/// An operation to run, with the channel and the chat to run it in.
#[derive(Debug, Clone, PartialEq, Eq)]
pub struct ChoiceCall {
    pub alias: String,
    pub chat_id: String,
    pub op: ChoiceOp,
}

/// The options among the items of a list: the texts that are not blank, trimmed, in
/// their order. Other items do not count.
pub open spec fn offered(items: Seq<Json>) -> Seq<Seq<char>>
    decreases items.len(),
{
    if items.len() == 0 {
        Seq::empty()
    } else {
        let front = offered(items.drop_last());
        match items.last().text() {
            Some(t) => match non_blank(t) {
                Some(option) => front.push(option),
                None => front,
            },
            None => front,
        }
    }
}

/// The options that the arguments offer.
pub open spec fn options_arg(args: Json) -> Seq<Seq<char>> {
    match args.items_at("options"@) {
        Some(items) => offered(items),
        None => Seq::empty(),
    }
}

/// The question that the arguments ask for, or why they ask for none.
pub open spec fn asked(args: Json) -> Result<ChoiceRequest, Seq<char>> {
    let prompt = text_arg(args, "prompt"@);
    let options = options_arg(args);
    if prompt.len() == 0 {
        Err("`prompt` must be a non-empty string."@)
    } else if MIN_OPTIONS <= options.len() <= MAX_OPTIONS {
        Ok(ChoiceRequest::RenderChoice { prompt, options })
    } else {
        Err(
            "`options` must have between 2 and 10 non-empty entries (got "@ + decimal(options.len())
                + ")."@,
        )
    }
}

/// What the tool makes of its configuration and its arguments.
pub open spec fn choice_plan(
    config: Map<Seq<char>, Settings>,
    alias: Seq<char>,
    args: Json,
) -> Plan<ChoiceRequest> {
    if !config.contains_key(alias) {
        Plan::Refuse(not_configured(alias))
    } else if !config[alias].enabled {
        Plan::Refuse(
            "Multiple-choice prompts are not enabled for this Telegram channel (set [channels.telegram.<alias>.topics].enabled = true)."@,
        )
    } else {
        match target_group(config[alias]) {
            None => Plan::Refuse(
                "No target group is configured (set [channels.telegram.<alias>.topics].group_id = \"<chat_id>\")."@,
            ),
            Some(chat_id) => match asked(args) {
                Ok(op) => Plan::Perform { chat_id, op },
                Err(reason) => Plan::Refuse(reason),
            },
        }
    }
}

/// The result of the tool, from the summary of an operation or from its error.
pub open spec fn choice_answer(reply: Result<Seq<char>, Seq<char>>) -> Answer {
    match reply {
        Ok(message) => success(message),
        Err(e) => refusal("multiple-choice prompt failed: "@ + e),
    }
}

/// What the tool is for, told to the agent.
pub open spec fn tool_description() -> Seq<char> {
    "Ask the user a multiple-choice question in this bot's configured master group, rendered as native Telegram inline buttons. Waits (bounded) for the user's tap and returns the chosen option. Provide 2 to 10 options. The group is fixed by configuration — you cannot target an arbitrary chat."@
}

/// The JSON schema of the arguments.
pub open spec fn choice_schema() -> Json {
    object_schema(
        map![
            "prompt"@ => text_parameter("The question or prompt to show above the buttons."@),
            "options"@ => Json::Object(
                map![
                    "type"@ => Json::Text("array"@),
                    "items"@ => Json::Object(map!["type"@ => Json::Text("string"@)]),
                    "minItems"@ => Json::Int(MIN_OPTIONS as int),
                    "maxItems"@ => Json::Int(MAX_OPTIONS as int),
                    "description"@ => Json::Text(
                        "2 to 10 answer options, each rendered as its own inline button."@,
                    ),
                ],
            ),
        ],
        seq![Json::Text("prompt"@), Json::Text("options"@)],
    )
}

/// Reads the offered options from the arguments.
fn read_options(args: &Value) -> (r: Vec<String>)
    ensures
        strings_view(r@) == options_arg(json_of(*args)),
{
    let mut r: Vec<String> = Vec::new();
    let items = match member(args, "options") {
        Some(list) => list.as_array(),
        None => None,
    };
    if let Some(items) = items {
        let mut i: usize = 0;
        assert(strings_view(r@) =~= offered(items_of(items@).take(0)));
        while i < items.len()
            invariant
                i <= items@.len(),
                strings_view(r@) == offered(items_of(items@).take(i as int)),
            decreases items@.len() - i,
        {
            let ghost prev = r@;
            assert(items_of(items@).take(i + 1).drop_last() =~= items_of(items@).take(i as int));
            if let Some(t) = items[i].as_str() {
                let option = trim(t);
                if !option.is_empty() {
                    r.push(option.to_owned());
                    assert(strings_view(r@) =~= strings_view(prev).push(option@));
                }
            }
            i = i + 1;
        }
        assert(items_of(items@).take(i as int) =~= items_of(items@));
    } else {
        assert(strings_view(r@) =~= Seq::empty());
    }
    r
}

/// Reads the question from the arguments.
fn read_question(args: &Value) -> (r: Result<ChoiceOp, String>)
    ensures
        (match r {
            Ok(op) => Ok(op@),
            Err(reason) => Err(reason@),
        }) == asked(json_of(*args)),
{
    let prompt = str_arg(args, "prompt");
    if prompt.as_str().is_empty() {
        return Err("`prompt` must be a non-empty string.".to_owned());
    }
    let options = read_options(args);
    assert(options@.len() == strings_view(options@).len());
    if options.len() < MIN_OPTIONS || options.len() > MAX_OPTIONS {
        let mut reason = "`options` must have between 2 and 10 non-empty entries (got ".to_owned();
        push_decimal(&mut reason, options.len() as u64);
        reason.append(").");
        return Err(reason);
    }
    Ok(ChoiceOp::RenderChoice { prompt, options })
}

impl TelegramMcChoiceTool {
    pub const NAME: &'static str = "telegram_mc_choice";

    /// The channels that the tool knows.
    pub closed spec fn channels(self) -> Map<Seq<char>, Settings> {
        self.config@
    }

    /// The channel that the tool is bound to.
    pub closed spec fn channel(self) -> Seq<char> {
        self.alias@
    }

    pub fn new(config: Arc<Config>, alias: &str) -> (r: Self)
        ensures
            r.channels() == config@,
            r.channel() == alias@,
    {
        TelegramMcChoiceTool { config, alias: alias.to_owned() }
    }

    /// The name by which an agent calls the tool.
    pub fn name(&self) -> (r: &str)
        ensures
            r@ == Self::NAME@,
    {
        Self::NAME
    }

    /// What the tool is for, told to the agent.
    pub fn description(&self) -> (r: &str)
        ensures
            r@ == tool_description(),
    {
        "Ask the user a multiple-choice question in this bot's configured master group, rendered as native Telegram inline buttons. Waits (bounded) for the user's tap and returns the chosen option. Provide 2 to 10 options. The group is fixed by configuration — you cannot target an arbitrary chat."
    }

    /// The JSON schema of the arguments.
    pub fn parameters_schema(&self) -> (r: Value)
        ensures
            json_of(r) == choice_schema(),
    {
        let mut item = object_value();
        set_member(&mut item, "type", text_value("string"));
        let mut options = object_value();
        set_member(&mut options, "type", text_value("array"));
        set_member(&mut options, "items", item);
        set_member(&mut options, "minItems", int_value(MIN_OPTIONS as i64));
        set_member(&mut options, "maxItems", int_value(MAX_OPTIONS as i64));
        set_member(
            &mut options,
            "description",
            text_value("2 to 10 answer options, each rendered as its own inline button."),
        );
        let mut properties = object_value();
        set_member(
            &mut properties,
            "prompt",
            build_text_parameter("The question or prompt to show above the buttons."),
        );
        set_member(&mut properties, "options", options);
        let mut required: Vec<Value> = Vec::new();
        required.push(text_value("prompt"));
        required.push(text_value("options"));
        assert(items_of(required@) =~= seq![Json::Text("prompt"@), Json::Text("options"@)]);
        build_object_schema(properties, required)
    }

    /// Decides which question to put to which chat, if any.
    pub fn begin(&self, args: &Value) -> (r: Result<ChoiceCall, ToolResult>)
        ensures
            match choice_plan(self.channels(), self.channel(), json_of(*args)) {
                Plan::Perform { chat_id, op } => r matches Ok(call) && call.alias@
                    == self.channel() && call.chat_id@ == chat_id && call.op@ == op,
                Plan::Refuse(reason) => r matches Err(result) && result@ == refusal(reason),
            },
    {
        let topics = match self.config.telegram(self.alias.as_str()) {
            Some(topics) => topics,
            None => {
                return Err(reject_alias(self.alias.as_str()));
            },
        };
        if !topics.enabled {
            return Err(
                reject(
                    "Multiple-choice prompts are not enabled for this Telegram channel (set [channels.telegram.<alias>.topics].enabled = true).",
                ),
            );
        }
        let chat_id = match topics.group() {
            Some(id) => id,
            None => {
                return Err(
                    reject(
                        "No target group is configured (set [channels.telegram.<alias>.topics].group_id = \"<chat_id>\").",
                    ),
                );
            },
        };
        match read_question(args) {
            Ok(op) => Ok(ChoiceCall { alias: self.alias.clone(), chat_id, op }),
            Err(reason) => Err(reject(reason.as_str())),
        }
    }

    /// The result of the tool, from what the operation came back with: its outcome,
    /// or its error in words.
    pub fn finish(&self, reply: Result<ChoiceOutcome, String>) -> (r: ToolResult)
        ensures
            r@ == choice_answer(
                match reply {
                    Ok(outcome) => Ok(outcome.message@),
                    Err(e) => Err(e@),
                },
            ),
    {
        match reply {
            Ok(outcome) => ToolResult { success: true, output: outcome.message, error: None },
            Err(e) => {
                let mut reason = "multiple-choice prompt failed: ".to_owned();
                reason.append(e.as_str());
                reject(reason.as_str())
            },
        }
    }
}

} // verus!
