//! Laws of the slash commands and of the owner gate.

use crate::commands::{command_in, command_named, new_topic_of, owns, Command};
use crate::decimal::all_digits;
use crate::laws::text::{lemma_trimmed, lemma_trimmed_after_one_end};
use crate::text::{after_first_word, cut_first, dark, first_word, head_run, is_white, lemma_cut_first_at, lemma_head_run, lemma_head_run_is, lemma_no_cut, lemma_tail_run, lemma_tail_run_is, non_blank, tail_run, trimmed, trimmed_end_of, trimmed_start, white};
use vstd::prelude::*;

verus! {

/// White space before a command makes no difference.
pub proof fn law_leading_white_space_is_ignored(blanks: Seq<char>, text: Seq<char>)
    requires
        forall|i: int| 0 <= i < blanks.len() ==> is_white(#[trigger] blanks[i]),
    ensures
        command_in(blanks + text) == command_in(text),
{
    lemma_head_run(text, white());
    let n = head_run(text, white());
    let all = blanks + text;
    assert forall|i: int| 0 <= i < blanks.len() + n implies white()(#[trigger] all[i]) by {
        if i >= blanks.len() {
            assert(white()(text[i - blanks.len()]));
        } else {
            assert(is_white(blanks[i]));
        }
    }
    lemma_head_run_is(all, white(), blanks.len() + n);
    assert(trimmed_start(all) =~= trimmed_start(text));
}

/// A text that does not start with a slash, white space aside, is no command.
pub proof fn law_no_slash_no_command(text: Seq<char>)
    requires
        trimmed_start(text).len() == 0 || trimmed_start(text)[0] != '/',
    ensures
        command_in(text) is None,
{
}

/// A command may carry the name of the bot: `/cmd@bot rest` means `/cmd rest`.
pub proof fn law_bot_name_is_ignored(command: Seq<char>, bot: Seq<char>, rest: Seq<char>)
    requires
        command.len() > 0,
        command[0] == '/',
        !command.contains('@'),
        forall|i: int| 0 <= i < command.len() ==> !is_white(#[trigger] command[i]),
        forall|i: int| 0 <= i < bot.len() ==> !is_white(#[trigger] bot[i]),
        rest.len() > 0 ==> is_white(rest[0]),
    ensures
        command_in(command.push('@') + bot + rest) == command_in(command + rest),
{
    let addressed = command.push('@') + bot;
    lemma_word(command, rest);
    assert forall|i: int| 0 <= i < addressed.len() implies !is_white(#[trigger] addressed[i]) by {
        if i < command.len() {
            assert(!is_white(command[i]));
        } else if i > command.len() {
            assert(!is_white(bot[i - command.len() - 1]));
        }
    }
    lemma_word(addressed, rest);
    lemma_cut_first_at(command, '@', bot);
    lemma_no_cut(command, '@');
}

/// A word that starts with a slash is the first word of its line.
proof fn lemma_word(word: Seq<char>, rest: Seq<char>)
    requires
        word.len() > 0,
        word[0] == '/',
        forall|i: int| 0 <= i < word.len() ==> !is_white(#[trigger] word[i]),
        rest.len() > 0 ==> is_white(rest[0]),
    ensures
        trimmed_start(word + rest) == word + rest,
        first_word(word + rest) == word,
        after_first_word(word + rest) == (if rest.len() > 0 {
            rest.skip(1)
        } else {
            Seq::empty()
        }),
{
    let line = word + rest;
    lemma_head_run_is(line, white(), 0);
    assert(trimmed_start(line) =~= line);
    assert forall|i: int| 0 <= i < word.len() implies dark()(#[trigger] line[i]) by {
        assert(!is_white(word[i]));
    }
    if rest.len() > 0 {
        assert(line[word.len() as int] == rest[0]);
    }
    lemma_head_run_is(line, dark(), word.len());
    assert(first_word(line) =~= word);
    if rest.len() > 0 {
        assert(line.skip(word.len() as int + 1) =~= rest.skip(1));
    }
}

/// A new topic is asked for by its name, and by its brief after a bar:
/// `/new_topic <name> | <brief>`. White space around either does not count, and a blank
/// brief is none.
pub proof fn law_new_topic_reads_name_and_brief(gap: char, name: Seq<char>, brief: Seq<char>)
    requires
        is_white(gap),
        !name.contains('|'),
    ensures
        command_in("/new_topic"@ + (seq![gap] + name)) == Some(
            Command::NewTopic { name: trimmed(name), brief: None },
        ),
        command_in("/new_topic"@ + (seq![gap] + (name.push('|') + brief))) == Some(
            Command::NewTopic { name: trimmed(name), brief: non_blank(brief) },
        ),
{
    reveal_strlit("/new_topic");
    let word = "/new_topic"@;
    lemma_argument(word, gap, name);
    lemma_no_bar(name);
    let rest = name.push('|') + brief;
    lemma_argument(word, gap, rest);
    lemma_trimmed_around_bar(name, brief);
}

/// A topic is renamed to what follows the command, without the white space around it.
pub proof fn law_rename_reads_the_new_name(gap: char, name: Seq<char>)
    requires
        is_white(gap),
    ensures
        command_in("/rename_topic"@ + (seq![gap] + name)) == Some(
            Command::RenameTopic { new_name: trimmed(name) },
        ),
{
    reveal_strlit("/rename_topic");
    reveal_strlit("/new_topic");
    reveal_strlit("/topics");
    lemma_argument("/rename_topic"@, gap, name);
    assert("/rename_topic"@.len() == 13);
    assert("/new_topic"@.len() == 10);
    assert("/topics"@.len() == 7);
}

/// The names of the commands are different texts.
proof fn lemma_names_differ()
    ensures
        "/new_topic"@ != "/topics"@,
        "/new_topic"@ != "/rename_topic"@,
        "/new_topic"@ != "/close_topic"@,
        "/new_topic"@ != "/reopen_topic"@,
        "/new_topic"@ != "/chat_id"@,
        "/topics"@ != "/rename_topic"@,
        "/topics"@ != "/close_topic"@,
        "/topics"@ != "/reopen_topic"@,
        "/topics"@ != "/chat_id"@,
        "/rename_topic"@ != "/close_topic"@,
        "/rename_topic"@ != "/reopen_topic"@,
        "/rename_topic"@ != "/chat_id"@,
        "/close_topic"@ != "/reopen_topic"@,
        "/close_topic"@ != "/chat_id"@,
        "/reopen_topic"@ != "/chat_id"@,
{
    reveal_strlit("/new_topic");
    reveal_strlit("/topics");
    reveal_strlit("/rename_topic");
    reveal_strlit("/close_topic");
    reveal_strlit("/reopen_topic");
    reveal_strlit("/chat_id");
    assert("/new_topic"@.len() == 10);
    assert("/topics"@.len() == 7);
    assert("/rename_topic"@.len() == 13);
    assert("/close_topic"@.len() == 12);
    assert("/reopen_topic"@.len() == 13);
    assert("/chat_id"@.len() == 8);
    assert("/rename_topic"@[3] == 'n');
    assert("/reopen_topic"@[3] == 'o');
}

/// The first word alone says which command a text is: each of the six words is its own
/// command, whatever follows, and any other word is none.
pub proof fn law_first_word_says_which_command(word: Seq<char>, gap: char, rest: Seq<char>)
    requires
        word.len() > 0,
        word[0] == '/',
        !word.contains('@'),
        forall|i: int| 0 <= i < word.len() ==> !is_white(#[trigger] word[i]),
        is_white(gap),
    ensures
        ({
            let (alone, more) = (command_in(word), command_in(word + (seq![gap] + rest)));
            &&& alone is Some <==> more is Some
            &&& more is Some <==> {
                ||| word == "/new_topic"@
                ||| word == "/topics"@
                ||| word == "/rename_topic"@
                ||| word == "/close_topic"@
                ||| word == "/reopen_topic"@
                ||| word == "/chat_id"@
            }
            &&& word == "/new_topic"@ ==> more->0 is NewTopic && alone == Some(
                Command::NewTopic { name: Seq::empty(), brief: None },
            )
            &&& word == "/rename_topic"@ ==> more == Some(
                Command::RenameTopic { new_name: trimmed(rest) },
            ) && alone == Some(Command::RenameTopic { new_name: Seq::empty() })
            &&& word == "/topics"@ ==> alone == Some(Command::ListTopics) && more == alone
            &&& word == "/close_topic"@ ==> alone == Some(Command::CloseTopic) && more == alone
            &&& word == "/reopen_topic"@ ==> alone == Some(Command::ReopenTopic) && more == alone
            &&& word == "/chat_id"@ ==> alone == Some(Command::ChatId) && more == alone
        }),
{
    lemma_names_differ();
    lemma_argument(word, gap, rest);
    let none = Seq::<char>::empty();
    lemma_word(word, none);
    lemma_no_cut(word, '@');
    assert(word + none =~= word);
    assert(trimmed(none) =~= none);
    lemma_no_cut(none, '|');
}

/// A command word and what comes after it, parted by one white space.
proof fn lemma_argument(word: Seq<char>, gap: char, rest: Seq<char>)
    requires
        word.len() > 0,
        word[0] == '/',
        !word.contains('@'),
        forall|i: int| 0 <= i < word.len() ==> !is_white(#[trigger] word[i]),
        is_white(gap),
    ensures
        command_in(word + (seq![gap] + rest)) == command_named(word, trimmed(rest)),
{
    let tail = seq![gap] + rest;
    lemma_word(word, tail);
    lemma_no_cut(word, '@');
    assert(tail.skip(1) =~= rest);
}

/// Trimming brings no bar into a text.
proof fn lemma_no_bar(name: Seq<char>)
    requires
        !name.contains('|'),
    ensures
        cut_first(trimmed(name), '|') is None,
{
    lemma_trimmed(name);
    let t = trimmed(name);
    assert(!t.contains('|')) by {
        if t.contains('|') {
            let i = t.index_of('|');
            assert(t[i] == '|');
            assert(name[i + head_run(name, white())] == '|');
        }
    }
    lemma_no_cut(t, '|');
}

/// A trimmed text is cut at its first bar into the parts of the text, of which each has
/// lost white space at one end.
proof fn lemma_trimmed_around_bar(name: Seq<char>, brief: Seq<char>)
    requires
        !name.contains('|'),
    ensures
        new_topic_of(trimmed(name.push('|') + brief)) == (Command::NewTopic {
            name: trimmed(name),
            brief: non_blank(brief),
        }),
{
    let rest = name.push('|') + brief;
    let front = trimmed_start(name);
    let back = trimmed_end_of(brief, white());
    lemma_head_run(name, white());
    lemma_tail_run(brief, white());
    let (h, t) = (head_run(name, white()), tail_run(brief, white()));
    assert(rest[name.len() as int] == '|');
    assert forall|i: int| 0 <= i < h implies white()(#[trigger] rest[i]) by {
        assert(white()(name[i]));
    }
    assert(h < name.len() ==> rest[h as int] == name[h as int]);
    lemma_head_run_is(rest, white(), h);
    assert forall|i: int| rest.len() - t <= i < rest.len() implies white()(#[trigger] rest[i]) by {
        assert(white()(brief[i - name.len() - 1]));
    }
    assert(t < brief.len() ==> rest[rest.len() - t - 1] == brief[brief.len() - t - 1]);
    lemma_tail_run_is(rest, white(), t);
    lemma_trimmed(rest);
    assert(trimmed(rest) =~= front.push('|') + back);
    assert(!front.contains('|')) by {
        if front.contains('|') {
            let i = front.index_of('|');
            assert(front[i] == '|');
            assert(name[i + h] == '|');
        }
    }
    lemma_cut_first_at(front, '|', back);
    lemma_trimmed_after_one_end(name);
    lemma_trimmed_after_one_end(brief);
}

/// A numeric sender id never matches a list of usernames, of which none is a number.
pub proof fn law_usernames_never_match(owners: Seq<String>, id: Seq<char>)
    requires
        all_digits(id),
        forall|i: int| 0 <= i < owners.len() ==> !all_digits((#[trigger] owners[i])@),
    ensures
        !owns(owners, id),
{
}

/// The owner gate lets through exactly those that it lets through after the list was
/// rearranged: only which ids it holds counts.
pub proof fn law_owner_order_does_not_count(a: Seq<String>, b: Seq<String>, id: Seq<char>)
    requires
        forall|i: int| 0 <= i < a.len() ==> owns(b, (#[trigger] a[i])@),
        forall|i: int| 0 <= i < b.len() ==> owns(a, (#[trigger] b[i])@),
    ensures
        owns(a, id) == owns(b, id),
{
}

/// The owners are those on the list, each by the whole id: an empty list has none, and one
/// more entry lets through its own id and no other.
pub proof fn law_owners_are_those_on_the_list(owners: Seq<String>, owner: String, id: Seq<char>)
    ensures
        !owns(Seq::empty(), id),
        owns(owners.push(owner), id) <==> owns(owners, id) || owner@ == id,
{
    let more = owners.push(owner);
    if owns(owners, id) {
        let i = choose|i: int| 0 <= i < owners.len() && (#[trigger] owners[i])@ == id;
        assert(more[i]@ == id);
    }
    if owner@ == id {
        assert(more[owners.len() as int]@ == id);
    }
    if owns(more, id) {
        let i = choose|i: int| 0 <= i < more.len() && (#[trigger] more[i])@ == id;
        if i < owners.len() {
            assert(owners[i]@ == id);
        }
    }
}

} // verus!
