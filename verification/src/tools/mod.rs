//! Agent-callable tools: what an agent may ask for, and where it goes.
//!
//! A tool decides in two steps. `begin` reads the configuration and the arguments and
//! either refuses or says which operation to run in which chat; `finish` turns what
//! the operation came back with into the result of the tool.

pub mod telegram_mc_choice;
pub mod telegram_topic;

use crate::json::{items_of, json_of, list_value, object_value, set_member, text_member, text_value, Json};
use crate::str_map::StrMap;
use crate::text::{non_blank, string_view, trim, trimmed};
use serde_json::Value;
use vstd::prelude::*;

verus! {

/// What a tool hands back to its agent.
#[derive(Debug, Clone, PartialEq, Eq)]
pub struct ToolResult {
    pub success: bool,
    pub output: String,
    pub error: Option<String>,
}

/// A tool's result, as a mathematical value.
pub struct Answer {
    pub success: bool,
    pub output: Seq<char>,
    pub error: Option<Seq<char>>,
}

impl View for ToolResult {
    type V = Answer;

    open spec fn view(&self) -> Answer {
        Answer { success: self.success, output: self.output@, error: string_view(self.error) }
    }
}

/// The result of a tool that refuses: no output, and the reason as the error.
pub open spec fn refusal(reason: Seq<char>) -> Answer {
    Answer { success: false, output: Seq::empty(), error: Some(reason) }
}

/// The result of a tool that did its work.
pub open spec fn success(output: Seq<char>) -> Answer {
    Answer { success: true, output, error: None }
}

/// What a tool makes of its configuration and its arguments.
pub enum Plan<O> {
    /// Nothing is done, for this reason.
    Refuse(Seq<char>),
    /// The operation is run in the chat.
    Perform { chat_id: Seq<char>, op: O },
}

/// Settings of the forum topics of one Telegram channel.
#[derive(Debug, Clone, PartialEq, Eq)]
pub struct TopicsConfig {
    pub enabled: bool,
    pub agent_managed: bool,
    pub group_id: Option<String>,
}

/// Settings, as a mathematical value.
pub struct Settings {
    pub enabled: bool,
    pub agent_managed: bool,
    pub group_id: Option<Seq<char>>,
}

impl View for TopicsConfig {
    type V = Settings;

    open spec fn view(&self) -> Settings {
        Settings {
            enabled: self.enabled,
            agent_managed: self.agent_managed,
            group_id: string_view(self.group_id),
        }
    }
}

impl Default for TopicsConfig {
    fn default() -> (r: Self)
        ensures
            r@ == (Settings { enabled: false, agent_managed: false, group_id: None }),
    {
        TopicsConfig { enabled: false, agent_managed: false, group_id: None }
    }
}

/// The configured group: what is left of the group id when it is trimmed, if anything.
pub open spec fn target_group(settings: Settings) -> Option<Seq<char>> {
    match settings.group_id {
        Some(id) => non_blank(id),
        None => None,
    }
}

impl TopicsConfig {
    /// The configured group, if there is one.
    pub fn group(&self) -> (r: Option<String>)
        ensures
            string_view(r) == target_group(self@),
    {
        match &self.group_id {
            Some(id) => {
                let id = trim(id.as_str());
                if id.is_empty() {
                    None
                } else {
                    Some(id.to_owned())
                }
            },
            None => None,
        }
    }
}

/// The Telegram channels, by alias.
#[derive(Debug, Clone)]
pub struct Config {
    telegram: StrMap<TopicsConfig>,
}

impl View for Config {
    type V = Map<Seq<char>, Settings>;

    closed spec fn view(&self) -> Map<Seq<char>, Settings> {
        self.telegram@.map_values(|t: TopicsConfig| t@)
    }
}

impl Default for Config {
    fn default() -> (r: Self)
        ensures
            r@ == Map::<Seq<char>, Settings>::empty(),
    {
        let r = Config { telegram: StrMap::new() };
        assert(r@ =~= Map::<Seq<char>, Settings>::empty());
        r
    }
}

impl Config {
    /// Sets the topics settings of the channel `alias`.
    pub fn set_telegram(&mut self, alias: &str, topics: TopicsConfig)
        ensures
            final(self)@ == old(self)@.insert(alias@, topics@),
    {
        let _ = self.telegram.insert(alias.to_owned(), topics);
        assert(self@ =~= old(self)@.insert(alias@, topics@));
    }

    /// The topics settings of the channel `alias`, if it is configured.
    pub fn telegram(&self, alias: &str) -> (r: Option<&TopicsConfig>)
        ensures
            match r {
                Some(t) => self@.contains_key(alias@) && t@ == self@[alias@],
                None => !self@.contains_key(alias@),
            },
    {
        self.telegram.get(alias)
    }
}

/// The result of a tool that refuses.
pub fn reject(reason: &str) -> (r: ToolResult)
    ensures
        r@ == refusal(reason@),
{
    ToolResult { success: false, output: String::new(), error: Some(reason.to_owned()) }
}

/// Why a tool refuses to act on a channel that is not configured.
pub open spec fn not_configured(alias: Seq<char>) -> Seq<char> {
    "Telegram channel '"@ + alias + "' is not configured."@
}

/// Refuses to act on a channel that is not configured.
fn reject_alias(alias: &str) -> (r: ToolResult)
    ensures
        r@ == refusal(not_configured(alias@)),
{
    let mut s = "Telegram channel '".to_owned();
    s.append(alias);
    s.append("' is not configured.");
    reject(s.as_str())
}

/// The text argument `key`, trimmed: empty where there is none.
pub open spec fn text_arg(args: Json, key: Seq<char>) -> Seq<char> {
    match args.text_at(key) {
        Some(t) => trimmed(t),
        None => Seq::empty(),
    }
}

/// The text argument `key`, trimmed: empty where there is none.
pub fn str_arg(args: &Value, key: &str) -> (r: String)
    ensures
        r@ == text_arg(json_of(*args), key@),
{
    match text_member(args, key) {
        Some(t) => trim(t).to_owned(),
        None => String::new(),
    }
}

/// The schema of a text parameter.
pub open spec fn text_parameter(description: Seq<char>) -> Json {
    Json::Object(
        map!["type"@ => Json::Text("string"@), "description"@ => Json::Text(description)],
    )
}

/// The schema of a text parameter.
fn build_text_parameter(description: &str) -> (r: Value)
    ensures
        json_of(r) == text_parameter(description@),
{
    let mut p = object_value();
    set_member(&mut p, "type", text_value("string"));
    set_member(&mut p, "description", text_value(description));
    p
}

/// The schema of an object with the given properties, of which some are required.
pub open spec fn object_schema(properties: Map<Seq<char>, Json>, required: Seq<Json>) -> Json {
    Json::Object(
        map![
            "type"@ => Json::Text("object"@),
            "properties"@ => Json::Object(properties),
            "required"@ => Json::List(required),
        ],
    )
}

/// The schema of an object with the given properties, of which some are required.
fn build_object_schema(properties: Value, required: Vec<Value>) -> (r: Value)
    requires
        json_of(properties) is Object,
    ensures
        json_of(r) == object_schema(json_of(properties)->Object_0, items_of(required@)),
{
    let mut schema = object_value();
    set_member(&mut schema, "type", text_value("object"));
    set_member(&mut schema, "properties", properties);
    set_member(&mut schema, "required", list_value(required));
    schema
}

} // verus!
