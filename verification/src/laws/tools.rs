//! Laws of the agent-callable tools.

use crate::choices::ChoiceRequest;
use crate::decimal::decimal;
use crate::json::Json;
use crate::laws::text::{is_neat, law_trimming_is_idempotent};
use crate::text::{debug_text, trimmed};
use crate::tools::telegram_mc_choice::{asked, choice_answer, choice_plan, offered, options_arg};
use crate::tools::telegram_topic::{requested, topic_actions, topic_answer, topic_plan};
use crate::tools::{not_configured, refusal, success, target_group, text_arg, Plan, Settings};
use crate::topics::TopicRequest;
use vstd::prelude::*;

verus! {

/// The topic tool acts only on a configured, enabled and agent-managed channel, and only
/// in the group of the configuration.
pub proof fn law_topic_group_comes_from_configuration(
    config: Map<Seq<char>, Settings>,
    alias: Seq<char>,
    args: Json,
)
    ensures
        topic_plan(config, alias, args) matches Plan::Perform { chat_id, op } ==> {
            &&& config.contains_key(alias)
            &&& config[alias].enabled
            &&& config[alias].agent_managed
            &&& target_group(config[alias]) == Some(chat_id)
        },
{
}

/// The choice tool acts only on a configured and enabled channel, and only in the group
/// of the configuration.
pub proof fn law_choice_group_comes_from_configuration(
    config: Map<Seq<char>, Settings>,
    alias: Seq<char>,
    args: Json,
)
    ensures
        choice_plan(config, alias, args) matches Plan::Perform { chat_id, op } ==> {
            &&& config.contains_key(alias)
            &&& config[alias].enabled
            &&& target_group(config[alias]) == Some(chat_id)
        },
{
}

/// Where the configuration does not let the topic tool act, it refuses all arguments alike.
pub proof fn law_topic_gate_comes_before_arguments(
    config: Map<Seq<char>, Settings>,
    alias: Seq<char>,
    args: Json,
    other: Json,
)
    requires
        !config.contains_key(alias) || !config[alias].enabled || !config[alias].agent_managed
            || target_group(config[alias]) is None,
    ensures
        topic_plan(config, alias, args) is Refuse,
        topic_plan(config, alias, args) == topic_plan(config, alias, other),
{
}

/// Where the configuration does not let the choice tool act, it refuses all arguments alike.
pub proof fn law_choice_gate_comes_before_arguments(
    config: Map<Seq<char>, Settings>,
    alias: Seq<char>,
    args: Json,
    other: Json,
)
    requires
        !config.contains_key(alias) || !config[alias].enabled || target_group(config[alias]) is None,
    ensures
        choice_plan(config, alias, args) is Refuse,
        choice_plan(config, alias, args) == choice_plan(config, alias, other),
{
}

/// What the topic tool makes of its arguments rests on their members `action`, `name`,
/// `brief` and `new_name` alone.
pub proof fn law_topic_plan_rests_on_four_arguments(
    config: Map<Seq<char>, Settings>,
    alias: Seq<char>,
    args: Json,
    other: Json,
)
    requires
        args.member("action"@) == other.member("action"@),
        args.member("name"@) == other.member("name"@),
        args.member("brief"@) == other.member("brief"@),
        args.member("new_name"@) == other.member("new_name"@),
    ensures
        topic_plan(config, alias, args) == topic_plan(config, alias, other),
{
}

/// What the choice tool makes of its arguments rests on their members `prompt` and
/// `options` alone.
pub proof fn law_choice_plan_rests_on_two_arguments(
    config: Map<Seq<char>, Settings>,
    alias: Seq<char>,
    args: Json,
    other: Json,
)
    requires
        args.member("prompt"@) == other.member("prompt"@),
        args.member("options"@) == other.member("options"@),
    ensures
        choice_plan(config, alias, args) == choice_plan(config, alias, other),
{
}

/// Of its arguments the topic tool reads `action`, `name`, `brief` and `new_name`; any
/// other, such as a chat id, changes nothing.
pub proof fn law_topic_tool_reads_its_own_arguments(
    config: Map<Seq<char>, Settings>,
    alias: Seq<char>,
    args: Map<Seq<char>, Json>,
    key: Seq<char>,
    value: Json,
)
    requires
        key != "action"@,
        key != "name"@,
        key != "brief"@,
        key != "new_name"@,
    ensures
        topic_plan(config, alias, Json::Object(args.insert(key, value))) == topic_plan(
            config,
            alias,
            Json::Object(args),
        ),
{
}

/// Of its arguments the choice tool reads `prompt` and `options`; any other, such as a
/// chat id, changes nothing.
pub proof fn law_choice_tool_reads_its_own_arguments(
    config: Map<Seq<char>, Settings>,
    alias: Seq<char>,
    args: Map<Seq<char>, Json>,
    key: Seq<char>,
    value: Json,
)
    requires
        key != "prompt"@,
        key != "options"@,
    ensures
        choice_plan(config, alias, Json::Object(args.insert(key, value))) == choice_plan(
            config,
            alias,
            Json::Object(args),
        ),
{
}

/// A chat id or a group id among the arguments changes nothing.
pub proof fn law_arguments_cannot_name_a_chat(
    config: Map<Seq<char>, Settings>,
    alias: Seq<char>,
    args: Map<Seq<char>, Json>,
    chat_id: Json,
    group_id: Json,
)
    ensures
        ({
            let named = args.insert("chat_id"@, chat_id).insert("group_id"@, group_id);
            &&& topic_plan(config, alias, Json::Object(named)) == topic_plan(
                config,
                alias,
                Json::Object(args),
            )
            &&& choice_plan(config, alias, Json::Object(named)) == choice_plan(
                config,
                alias,
                Json::Object(args),
            )
        }),
{
    reveal_strlit("chat_id");
    reveal_strlit("group_id");
    reveal_strlit("action");
    reveal_strlit("name");
    reveal_strlit("brief");
    reveal_strlit("new_name");
    reveal_strlit("prompt");
    reveal_strlit("options");
    assert("chat_id"@[0] != "options"@[0]);
    assert("group_id"@[0] != "new_name"@[0]);
    let once = args.insert("chat_id"@, chat_id);
    law_topic_tool_reads_its_own_arguments(config, alias, args, "chat_id"@, chat_id);
    law_topic_tool_reads_its_own_arguments(config, alias, once, "group_id"@, group_id);
    law_choice_tool_reads_its_own_arguments(config, alias, args, "chat_id"@, chat_id);
    law_choice_tool_reads_its_own_arguments(config, alias, once, "group_id"@, group_id);
}

/// A text argument has no white space around it.
proof fn lemma_text_arg(args: Json, key: Seq<char>)
    ensures
        trimmed(text_arg(args, key)) == text_arg(args, key),
{
    match args.text_at(key) {
        Some(t) => law_trimming_is_idempotent(t),
        None => {
            assert(trimmed(Seq::<char>::empty()) =~= Seq::<char>::empty());
        },
    }
}

/// A question that is asked has a prompt and two to ten options, and none of them is
/// blank or has white space around it.
pub proof fn law_question_is_well_formed(
    config: Map<Seq<char>, Settings>,
    alias: Seq<char>,
    args: Json,
)
    ensures
        choice_plan(config, alias, args) matches Plan::Perform {
            chat_id,
            op: ChoiceRequest::RenderChoice { prompt, options },
        } ==> {
            &&& is_neat(prompt)
            &&& 2 <= options.len() <= 10
            &&& forall|i: int| 0 <= i < options.len() ==> is_neat(#[trigger] options[i])
        },
{
    lemma_text_arg(args, "prompt"@);
    if let Some(items) = args.items_at("options"@) {
        lemma_offered(items);
    }
}

/// Every option that counts is neat.
proof fn lemma_offered(items: Seq<Json>)
    ensures
        forall|i: int| 0 <= i < offered(items).len() ==> is_neat(#[trigger] offered(items)[i]),
    decreases items.len(),
{
    if items.len() > 0 {
        let front = offered(items.drop_last());
        lemma_offered(items.drop_last());
        assert forall|i: int| 0 <= i < offered(items).len() implies is_neat(
            #[trigger] offered(items)[i],
        ) by {
            if i < front.len() {
                assert(offered(items)[i] == front[i]);
            } else if let Some(t) = items.last().text() {
                law_trimming_is_idempotent(t);
            }
        }
    }
}

/// An operation that the topic tool runs was asked for by an action of its schema, and
/// its names and its brief are neither blank nor have white space around them.
pub proof fn law_topic_request_is_well_formed(args: Json)
    ensures
        requested(args) matches Ok(op) ==> {
            &&& topic_actions().contains(Json::Text(text_arg(args, "action"@)))
            &&& match op {
                TopicRequest::Create { name, brief } => is_neat(name) && (brief matches Some(b)
                    ==> is_neat(b)),
                TopicRequest::List => true,
                TopicRequest::Rename { name, new_name } => is_neat(name) && is_neat(new_name),
                TopicRequest::Close { name } => is_neat(name),
                TopicRequest::Reopen { name } => is_neat(name),
                TopicRequest::ResolveThreadId { name } => false,
            }
        },
{
    lemma_text_arg(args, "name"@);
    lemma_text_arg(args, "brief"@);
    lemma_text_arg(args, "new_name"@);
    let known = topic_actions();
    assert(known[0] == Json::Text("create"@));
    assert(known[1] == Json::Text("list"@));
    assert(known[2] == Json::Text("rename"@));
    assert(known[3] == Json::Text("close"@));
    assert(known[4] == Json::Text("reopen"@));
}

/// Every action of the schema is accepted, where the names that it may need are given.
pub proof fn law_schema_actions_are_accepted(args: Json)
    requires
        topic_actions().contains(Json::Text(text_arg(args, "action"@))),
        text_arg(args, "name"@).len() > 0,
        text_arg(args, "new_name"@).len() > 0,
    ensures
        requested(args) is Ok,
{
    let i = topic_actions().index_of(Json::Text(text_arg(args, "action"@)));
    assert(topic_actions()[i] == Json::Text(text_arg(args, "action"@)));
}

/// A text argument is what stands under its key, without the white space around it; where
/// no text stands there, it is empty.
pub proof fn law_text_arguments_are_trimmed(args: Json, key: Seq<char>)
    ensures
        (match args {
            Json::Object(m) => if m.contains_key(key) && m[key] is Text {
                text_arg(args, key) == trimmed(m[key]->Text_0)
            } else {
                text_arg(args, key).len() == 0
            },
            _ => text_arg(args, key).len() == 0,
        }),
{
}

/// The group is the configured one without the white space around it, and there is none
/// where it is not set or blank.
pub proof fn law_group_is_the_configured_one(settings: Settings)
    ensures
        target_group(settings) == (match settings.group_id {
            Some(id) => if trimmed(id).len() > 0 {
                Some(trimmed(id))
            } else {
                None
            },
            None => None,
        }),
{
}

/// A refusal has no output and tells its reason as it is; a success has no error and
/// tells its output as it is.
pub proof fn law_results_tell_what_they_are_given(text: Seq<char>)
    ensures
        !refusal(text).success,
        refusal(text).output.len() == 0,
        refusal(text).error == Some(text),
        success(text).success,
        success(text).output == text,
        success(text).error is None,
{
}

/// A tool succeeds exactly where its operation did, and hands on what the operation said,
/// unchanged: its summary as the output, or its error after a word on what failed.
pub proof fn law_tools_hand_on_what_operations_say(message: Seq<char>, e: Seq<char>)
    ensures
        topic_answer(Ok(message)).success && choice_answer(Ok(message)).success,
        topic_answer(Ok(message)).output == message && choice_answer(Ok(message)).output == message,
        topic_answer(Ok(message)).error is None && choice_answer(Ok(message)).error is None,
        !topic_answer(Err(e)).success && !choice_answer(Err(e)).success,
        topic_answer(Err(e)).output.len() == 0 && choice_answer(Err(e)).output.len() == 0,
        topic_answer(Err(e)).error == Some("topic operation failed: "@ + e),
        choice_answer(Err(e)).error == Some("multiple-choice prompt failed: "@ + e),
{
}

/// Whether both tools may act on the channel: it is configured and enabled, and its group
/// is not blank.
pub open spec fn may_act(config: Map<Seq<char>, Settings>, alias: Seq<char>) -> bool {
    &&& config.contains_key(alias)
    &&& config[alias].enabled
    &&& config[alias].group_id matches Some(id) && trimmed(id).len() > 0
}

/// Where the configuration lets the tools act, the arguments alone decide: what they ask for
/// is done in the configured group, and what they lack is the reason of the refusal. The
/// topic tool must be allowed to manage topics too.
pub proof fn law_arguments_decide_behind_the_gate(
    config: Map<Seq<char>, Settings>,
    alias: Seq<char>,
    args: Json,
)
    requires
        may_act(config, alias),
    ensures
        config[alias].agent_managed ==> topic_plan(config, alias, args) == (match requested(args) {
            Ok(op) => Plan::Perform { chat_id: trimmed(config[alias].group_id->0), op },
            Err(reason) => Plan::Refuse(reason),
        }),
        choice_plan(config, alias, args) == (match asked(args) {
            Ok(op) => Plan::Perform { chat_id: trimmed(config[alias].group_id->0), op },
            Err(reason) => Plan::Refuse(reason),
        }),
{
}

/// Where the configuration does not let a tool act, the refusal names the first thing that
/// is amiss: the channel, the switch, the permission of the topic tool, the group.
pub proof fn law_refusals_name_what_is_amiss(
    config: Map<Seq<char>, Settings>,
    alias: Seq<char>,
    args: Json,
)
    ensures
        ({
            let (topic, choice) = (topic_plan(config, alias, args), choice_plan(config, alias, args));
            if !config.contains_key(alias) {
                &&& topic == Plan::<TopicRequest>::Refuse(
                    "Telegram channel '"@ + (alias + "' is not configured."@),
                )
                &&& choice == Plan::<ChoiceRequest>::Refuse(
                    "Telegram channel '"@ + (alias + "' is not configured."@),
                )
            } else if !config[alias].enabled {
                &&& topic == Plan::<TopicRequest>::Refuse(
                    "Forum topics are not enabled for this Telegram channel (set [channels.telegram.<alias>.topics].enabled = true)."@,
                )
                &&& choice == Plan::<ChoiceRequest>::Refuse(
                    "Multiple-choice prompts are not enabled for this Telegram channel (set [channels.telegram.<alias>.topics].enabled = true)."@,
                )
            } else {
                &&& !config[alias].agent_managed ==> topic == Plan::<TopicRequest>::Refuse(
                    "Agent-managed topic operations are disabled (set [channels.telegram.<alias>.topics].agent_managed = true)."@,
                )
                &&& config[alias].agent_managed && !may_act(config, alias)
                    ==> topic == Plan::<TopicRequest>::Refuse(
                    "No master forum group is configured (set [channels.telegram.<alias>.topics].group_id = \"<chat_id>\")."@,
                )
                &&& !may_act(config, alias) ==> choice == Plan::<ChoiceRequest>::Refuse(
                    "No target group is configured (set [channels.telegram.<alias>.topics].group_id = \"<chat_id>\")."@,
                )
            }
        }),
{
    assert(not_configured(alias) =~= "Telegram channel '"@ + (alias + "' is not configured."@));
}

/// The actions are different texts.
proof fn lemma_actions_differ()
    ensures
        "create"@ != "list"@,
        "create"@ != "rename"@,
        "create"@ != "close"@,
        "create"@ != "reopen"@,
        "list"@ != "rename"@,
        "list"@ != "close"@,
        "list"@ != "reopen"@,
        "rename"@ != "close"@,
        "rename"@ != "reopen"@,
        "close"@ != "reopen"@,
{
    reveal_strlit("create");
    reveal_strlit("list");
    reveal_strlit("rename");
    reveal_strlit("close");
    reveal_strlit("reopen");
    assert("create"@.len() == 6);
    assert("list"@.len() == 4);
    assert("rename"@.len() == 6);
    assert("close"@.len() == 5);
    assert("reopen"@.len() == 6);
    assert("create"@[0] == 'c');
    assert("rename"@[2] == 'n');
    assert("reopen"@[2] == 'o');
}

/// Each action asks for the operation of its name, with the names and the brief that were
/// given; where a name that it needs is not given, it is refused.
pub proof fn law_actions_ask_for_their_operations(args: Json)
    ensures
        ({
            let action = text_arg(args, "action"@);
            let (name, new_name) = (text_arg(args, "name"@), text_arg(args, "new_name"@));
            let brief = text_arg(args, "brief"@);
            let named = name.len() > 0;
            &&& action == "create"@ && named ==> requested(args) == Ok::<TopicRequest, Seq<char>>(
                TopicRequest::Create {
                    name,
                    brief: if brief.len() > 0 {
                        Some(brief)
                    } else {
                        None
                    },
                },
            )
            &&& action == "list"@ ==> requested(args) == Ok::<TopicRequest, Seq<char>>(
                TopicRequest::List,
            )
            &&& action == "rename"@ && named && new_name.len() > 0 ==> requested(args) == Ok::<
                TopicRequest,
                Seq<char>,
            >(TopicRequest::Rename { name, new_name })
            &&& action == "close"@ && named ==> requested(args) == Ok::<TopicRequest, Seq<char>>(
                TopicRequest::Close { name },
            )
            &&& action == "reopen"@ && named ==> requested(args) == Ok::<TopicRequest, Seq<char>>(
                TopicRequest::Reopen { name },
            )
            &&& action == "create"@ && !named ==> requested(args) == Err::<
                TopicRequest,
                Seq<char>,
            >("`create` requires a non-empty 'name'."@)
            &&& action == "rename"@ && (!named || new_name.len() == 0) ==> requested(args) == Err::<
                TopicRequest,
                Seq<char>,
            >("`rename` requires both 'name' and 'new_name'."@)
            &&& action == "close"@ && !named ==> requested(args) == Err::<TopicRequest, Seq<char>>(
                "`close` requires a non-empty 'name'."@,
            )
            &&& action == "reopen"@ && !named ==> requested(args) == Err::<
                TopicRequest,
                Seq<char>,
            >("`reopen` requires a non-empty 'name'."@)
            &&& action != "create"@ && action != "list"@ && action != "rename"@ && action
                != "close"@ && action != "reopen"@ ==> requested(args) == Err::<
                TopicRequest,
                Seq<char>,
            >(
                "Unknown action "@ + (debug_text(action)
                    + "; use one of create|list|rename|close|reopen."@),
            )
        }),
{
    lemma_actions_differ();
    let action = text_arg(args, "action"@);
    assert("Unknown action "@ + debug_text(action)
        + "; use one of create|list|rename|close|reopen."@ =~= "Unknown action "@ + (debug_text(
        action,
    ) + "; use one of create|list|rename|close|reopen."@));
}

/// The options of a list are those of its parts, one behind the other, so that none is lost,
/// moved or made up; an item alone is an option where it is a text that is not blank.
pub proof fn law_every_item_is_taken_by_itself(a: Seq<Json>, b: Seq<Json>, item: Json)
    ensures
        offered(a + b) == offered(a) + offered(b),
        offered(seq![item]) == (match item {
            Json::Text(t) => if trimmed(t).len() > 0 {
                seq![trimmed(t)]
            } else {
                Seq::empty()
            },
            _ => Seq::empty(),
        }),
    decreases b.len(),
{
    let one = seq![item];
    assert(one.drop_last() =~= Seq::<Json>::empty());
    assert(offered(one.drop_last()) =~= Seq::<Seq<char>>::empty());
    assert(one.last() == item);
    match item {
        Json::Text(t) => {
            assert(offered(one) =~= (if trimmed(t).len() > 0 {
                seq![trimmed(t)]
            } else {
                Seq::empty()
            }));
        },
        _ => {},
    }
    if b.len() == 0 {
        assert(a + b =~= a);
        assert(offered(a) + offered(b) =~= offered(a));
    } else {
        law_every_item_is_taken_by_itself(a, b.drop_last(), item);
        assert((a + b).drop_last() =~= a + b.drop_last());
        assert(offered(a + b) =~= offered(a) + offered(b));
    }
}

/// A question is asked with the prompt and with all the options that were offered, where
/// there is a prompt and there are two to ten of them; else it is refused.
pub proof fn law_question_offers_every_option(args: Json)
    ensures
        ({
            let prompt = text_arg(args, "prompt"@);
            let options = match args {
                Json::Object(m) => if m.contains_key("options"@) && m["options"@] is List {
                    offered(m["options"@]->List_0)
                } else {
                    Seq::empty()
                },
                _ => Seq::empty(),
            };
            if prompt.len() == 0 {
                asked(args) == Err::<ChoiceRequest, Seq<char>>(
                    "`prompt` must be a non-empty string."@,
                )
            } else if 2 <= options.len() <= 10 {
                asked(args) == Ok::<ChoiceRequest, Seq<char>>(
                    ChoiceRequest::RenderChoice { prompt, options },
                )
            } else {
                asked(args) == Err::<ChoiceRequest, Seq<char>>(
                    "`options` must have between 2 and 10 non-empty entries (got "@ + (decimal(
                        options.len(),
                    ) + ")."@),
                )
            }
        }),
{
    let options = options_arg(args);
    assert("`options` must have between 2 and 10 non-empty entries (got "@ + decimal(options.len())
        + ")."@ =~= "`options` must have between 2 and 10 non-empty entries (got "@ + (decimal(
        options.len(),
    ) + ")."@));
}

/// Neat texts are offered as they are, each in its place.
proof fn lemma_neat_items(items: Seq<Json>)
    requires
        forall|i: int|
            0 <= i < items.len() ==> (#[trigger] items[i]) is Text && is_neat(items[i]->Text_0),
    ensures
        offered(items).len() == items.len(),
        forall|i: int| 0 <= i < items.len() ==> #[trigger] offered(items)[i] == items[i]->Text_0,
    decreases items.len(),
{
    if items.len() > 0 {
        let front = items.drop_last();
        assert forall|i: int| 0 <= i < front.len() implies (#[trigger] front[i]) is Text && is_neat(
            front[i]->Text_0,
        ) by {
            assert(front[i] == items[i]);
        }
        lemma_neat_items(front);
        assert(items[items.len() - 1] is Text && is_neat(items[items.len() - 1]->Text_0));
        assert forall|i: int| 0 <= i < items.len() implies #[trigger] offered(items)[i]
            == items[i]->Text_0 by {
            if i < front.len() {
                assert(offered(items)[i] == offered(front)[i]);
                assert(front[i] == items[i]);
            }
        }
    }
}

/// Two to ten texts, of which none is blank or has white space around it, are put to the
/// configured group as they are: as many options as there are items, each in its place.
pub proof fn law_asked_options_are_all_put(
    config: Map<Seq<char>, Settings>,
    alias: Seq<char>,
    args: Map<Seq<char>, Json>,
    prompt: Seq<char>,
    items: Seq<Json>,
)
    requires
        may_act(config, alias),
        args.contains_key("prompt"@),
        args["prompt"@] == Json::Text(prompt),
        is_neat(prompt),
        args.contains_key("options"@),
        args["options"@] == Json::List(items),
        2 <= items.len() <= 10,
        forall|i: int|
            0 <= i < items.len() ==> (#[trigger] items[i]) is Text && is_neat(items[i]->Text_0),
    ensures
        choice_plan(config, alias, Json::Object(args)) matches Plan::Perform {
            chat_id,
            op: ChoiceRequest::RenderChoice { prompt: p, options },
        } && chat_id == trimmed(config[alias].group_id->0) && p == prompt && options.len()
            == items.len() && forall|i: int|
            0 <= i < items.len() ==> #[trigger] options[i] == items[i]->Text_0,
{
    lemma_neat_items(items);
}

} // verus!
