//! Laws of the memorizer bridge.

use crate::decimal::{decimal, is_digit, lemma_decimal, lemma_parse_decimal, parsed_usize};
use crate::json::Json;
use crate::laws::text::{law_prefix_is_taken_off, law_trimming_a_character_leaves_the_rest};
use crate::memorizer_bridge::{answer_address, answer_json, answer_taken, any_math, base_of, bridge_error_text, button_label, callback_fits, callback_text, choice_letter, is_first_misfit, keyboard, lettered, next_address, next_meaning, paragraph, question_body, question_markdown, tap_in, AnswerKind, BridgeError, NextReply, PendingQuestion, Tap, MEMQ_PREFIX};
use crate::text::{after_prefix, cut_last, debug_text, lemma_cut_last_at, lemma_no_cut, lemma_tail_run, lemma_tail_run_is, only, tail_run};
use vstd::prelude::*;
use vstd::utf8::{encode_utf8, is_ascii_chars, is_ascii_chars_encode_utf8};

verus! {

/// A tap on a button is read as what the button was made for.
pub proof fn law_callback_round_trip(short_qid: Seq<char>, idx: usize)
    requires
        short_qid.len() > 0,
    ensures
        tap_in(callback_text(short_qid, idx as nat)) == Some(Tap { short_qid, choice_idx: idx }),
{
    lemma_callback_parts(short_qid, idx as nat);
    lemma_parse_decimal(idx);
}

/// After its prefix a callback is cut at its last colon into what it was made of.
proof fn lemma_callback_parts(short_qid: Seq<char>, idx: nat)
    ensures
        after_prefix(callback_text(short_qid, idx), MEMQ_PREFIX@) matches Some(rest) && cut_last(
            rest,
            ':',
        ) == Some((short_qid, decimal(idx))),
{
    let data = callback_text(short_qid, idx);
    let rest = short_qid.push(':') + decimal(idx);
    assert(data =~= MEMQ_PREFIX@ + rest);
    assert(data.take(MEMQ_PREFIX@.len() as int) =~= MEMQ_PREFIX@);
    assert(data.skip(MEMQ_PREFIX@.len() as int) =~= rest);
    lemma_decimal(idx);
    assert(!decimal(idx).contains(':')) by {
        if decimal(idx).contains(':') {
            let i = decimal(idx).index_of(':');
            assert(is_digit(decimal(idx)[i]));
        }
    }
    lemma_cut_last_at(short_qid, ':', decimal(idx));
}

/// Different choices, and choices of different questions, never share their data.
pub proof fn law_callback_data_is_unique(q1: Seq<char>, i1: usize, q2: Seq<char>, i2: usize)
    requires
        callback_text(q1, i1 as nat) == callback_text(q2, i2 as nat),
    ensures
        q1 == q2,
        i1 == i2,
{
    lemma_callback_parts(q1, i1 as nat);
    lemma_callback_parts(q2, i2 as nat);
    lemma_decimal(i1 as nat);
    lemma_decimal(i2 as nat);
}

/// The taps of the approval flow are not taken for taps on a quiz, nor the other way
/// round.
pub proof fn law_approval_taps_are_left_alone(data: Seq<char>)
    ensures
        after_prefix(data, "approval:"@) is Some ==> tap_in(data) is None,
        tap_in(data) is Some ==> after_prefix(data, "approval:"@) is None,
{
    reveal_strlit("approval:");
    reveal_strlit("memq:");
    if after_prefix(data, "approval:"@) is Some {
        assert(data.take("approval:"@.len() as int)[0] == 'a');
        if after_prefix(data, MEMQ_PREFIX@) is Some {
            assert(data.take(MEMQ_PREFIX@.len() as int)[0] == 'm');
        }
    }
}

/// A question has one row of buttons for each option, in their order, and a tap on
/// row `i` is the answer `i` to this question.
pub proof fn law_buttons_answer_their_question(q: PendingQuestion, i: usize)
    requires
        q.short_qid@.len() > 0,
        i < q.options@.len(),
    ensures
        keyboard(q).len() == q.options@.len(),
        ({
            let row = keyboard(q)[i as int].items();
            &&& row is Some
            &&& row->0.len() == 1
            &&& row->0[0].text_at("text"@) == Some(button_label(q, i as int))
            &&& row->0[0].text_at("callback_data"@) matches Some(data)
            &&& tap_in(data) == Some(Tap { short_qid: q.short_qid@, choice_idx: i })
        }),
{
    reveal_strlit("text");
    reveal_strlit("callback_data");
    assert("text"@.len() != "callback_data"@.len());
    law_callback_round_trip(q.short_qid@, i);
}

/// The front of a question starts its message, unchanged.
pub proof fn law_front_is_verbatim(q: PendingQuestion)
    ensures
        q.front@.len() <= question_markdown(q).len(),
        question_markdown(q).take(q.front@.len() as int) == q.front@,
        !any_math(q.options@) ==> question_markdown(q) == q.front@,
{
    assert(question_markdown(q).take(q.front@.len() as int) =~= q.front@);
}

/// Where options carry math, each stands unchanged in the message after its letter.
pub proof fn law_math_options_are_verbatim(q: PendingQuestion, i: int)
    requires
        any_math(q.options@),
        0 <= i < q.options@.len(),
    ensures
        exists|head: Seq<char>, tail: Seq<char>|
            question_markdown(q) == #[trigger] (head + paragraph(q.options@, i) + tail),
{
    let n = q.options@.len();
    let upto = lettered(q.options@, (i + 1) as nat);
    let all = lettered(q.options@, n);
    lemma_lettered_prefix(q.options@, (i + 1) as nat, n);
    let head = q.front@ + lettered(q.options@, i as nat);
    let tail = all.skip(upto.len() as int);
    assert(all =~= upto + tail);
    assert(question_markdown(q) =~= head + paragraph(q.options@, i) + tail);
}

/// The first paragraphs stay when more follow.
proof fn lemma_lettered_prefix(options: Seq<String>, m: nat, n: nat)
    requires
        m <= n,
    ensures
        lettered(options, m).len() <= lettered(options, n).len(),
        lettered(options, n).take(lettered(options, m).len() as int) == lettered(options, m),
    decreases n,
{
    if m == n {
        assert(lettered(options, n).take(lettered(options, n).len() as int) =~= lettered(
            options,
            n,
        ));
    } else {
        lemma_lettered_prefix(options, m, (n - 1) as nat);
        let (a, b, c) = (
            lettered(options, m),
            lettered(options, (n - 1) as nat),
            lettered(options, n),
        );
        assert(c.take(b.len() as int) =~= b);
        assert(c.take(a.len() as int) =~= b.take(a.len() as int));
    }
}

/// A question goes to the given chat, and to the given topic if there is one, whose id
/// is a text.
pub proof fn law_question_goes_to_its_topic(
    chat_id: Seq<char>,
    thread_id: Option<Seq<char>>,
    q: PendingQuestion,
)
    ensures
        question_body(chat_id, thread_id, q).text_at("chat_id"@) == Some(chat_id),
        question_body(chat_id, thread_id, q).member("message_thread_id"@) == (match thread_id {
            Some(id) => Some(Json::Text(id)),
            None => None,
        }),
{
    reveal_strlit("chat_id");
    reveal_strlit("rich_message");
    reveal_strlit("reply_markup");
    reveal_strlit("message_thread_id");
    assert("chat_id"@.len() == 7);
    assert("message_thread_id"@.len() == 17);
    assert("rich_message"@.len() == 12);
    assert("reply_markup"@.len() == 12);
}

/// The address of the bridge never ends in a slash, and slashes at its end make no
/// difference.
pub proof fn law_closing_slashes_do_not_count(url: Seq<char>)
    ensures
        base_of(url).len() > 0 ==> base_of(url).last() != '/',
        base_of(url.push('/')) == base_of(url),
        base_of(base_of(url)) == base_of(url),
{
    lemma_tail_run(url, only('/'));
    let n = tail_run(url, only('/'));
    let longer = url.push('/');
    assert forall|i: int| longer.len() - (n + 1) <= i < longer.len() implies only('/')(
        #[trigger] longer[i],
    ) by {
        if i < url.len() {
            assert(only('/')(url[i]));
        }
    }
    lemma_tail_run_is(longer, only('/'), n + 1);
    assert(base_of(longer) =~= base_of(url));
    lemma_tail_run_is(base_of(url), only('/'), 0);
    assert(base_of(base_of(url)) =~= base_of(url));
}

/// The data of a button is the prefix, the id of the question, a colon and the index of
/// the choice, one behind the other.
pub proof fn law_callback_data_holds_id_and_index(short_qid: Seq<char>, idx: nat)
    ensures
        ({
            let data = callback_text(short_qid, idx);
            let n = short_qid.len() as int;
            &&& data.len() == 6 + n + decimal(idx).len()
            &&& data.take(5) == seq!['m', 'e', 'm', 'q', ':']
            &&& data.subrange(5, 5 + n) == short_qid
            &&& data[5 + n] == ':'
            &&& data.skip(6 + n) == decimal(idx)
        }),
{
    reveal_strlit("memq:");
    let data = callback_text(short_qid, idx);
    let n = short_qid.len() as int;
    assert(MEMQ_PREFIX@ =~= seq!['m', 'e', 'm', 'q', ':']);
    assert(data.take(5) =~= MEMQ_PREFIX@);
    assert(data.subrange(5, 5 + n) =~= short_qid);
    assert(data.skip(6 + n) =~= decimal(idx));
}

/// Data with the prefix is read as a tap where it has an id, a colon and a number; the
/// last colon parts them.
pub proof fn law_taps_are_read_from_id_and_index(short_qid: Seq<char>, idx: Seq<char>)
    requires
        !idx.contains(':'),
    ensures
        tap_in("memq:"@ + (short_qid.push(':') + idx)) == (match parsed_usize(idx) {
            Some(choice_idx) => if short_qid.len() > 0 {
                Some(Tap { short_qid, choice_idx })
            } else {
                None
            },
            None => None,
        }),
        tap_in("memq:"@ + idx) is None,
{
    let rest = short_qid.push(':') + idx;
    law_prefix_is_taken_off(rest, "memq:"@, rest);
    law_prefix_is_taken_off(idx, "memq:"@, idx);
    lemma_cut_last_at(short_qid, ':', idx);
    lemma_no_cut(idx, ':');
}

/// Data without the prefix is no tap.
pub proof fn law_data_without_the_prefix_is_no_tap(data: Seq<char>)
    requires
        data.len() < 5 || data.take(5) != seq!['m', 'e', 'm', 'q', ':'],
    ensures
        tap_in(data) is None,
{
    reveal_strlit("memq:");
    assert(MEMQ_PREFIX@ =~= seq!['m', 'e', 'm', 'q', ':']);
}

/// Encoding two texts one behind the other.
proof fn lemma_encode_concat(a: Seq<char>, b: Seq<char>)
    ensures
        encode_utf8(a + b) == encode_utf8(a) + encode_utf8(b),
    decreases a.len(),
{
    if a.len() == 0 {
        assert(a + b =~= b);
        assert(encode_utf8(a) + encode_utf8(b) =~= encode_utf8(b));
    } else {
        lemma_encode_concat(a.drop_first(), b);
        assert((a + b).drop_first() =~= a.drop_first() + b);
        assert(encode_utf8(a + b) =~= encode_utf8(a) + encode_utf8(b));
    }
}

/// A button holds 64 bytes: the bytes of the id, the digits of the index, and six more.
pub proof fn law_callback_limit_counts_bytes(short_qid: Seq<char>, idx: nat)
    ensures
        callback_fits(short_qid, idx) <==> encode_utf8(short_qid).len() + decimal(idx).len() + 6
            <= 64,
        is_ascii_chars(short_qid) ==> (callback_fits(short_qid, idx) <==> short_qid.len()
            + decimal(idx).len() + 6 <= 64),
{
    reveal_strlit("memq:");
    let (p, d) = (MEMQ_PREFIX@, decimal(idx));
    lemma_decimal(idx);
    assert forall|i: int| 0 <= i < d.len() implies '\0' <= #[trigger] d[i] <= '\u{7f}' by {
        assert(is_digit(d[i]));
    }
    assert(is_ascii_chars(d));
    assert(is_ascii_chars(p));
    assert(is_ascii_chars(seq![':']));
    is_ascii_chars_encode_utf8(d);
    is_ascii_chars_encode_utf8(p);
    is_ascii_chars_encode_utf8(seq![':']);
    lemma_encode_concat(p, short_qid);
    lemma_encode_concat(p + short_qid, seq![':']);
    lemma_encode_concat(p + short_qid + seq![':'], d);
    if is_ascii_chars(short_qid) {
        is_ascii_chars_encode_utf8(short_qid);
    }
}

/// A question is refused at its first choice that does not fit, and there is such a
/// choice exactly where not all of them fit.
pub proof fn law_refused_choice_is_the_first_that_does_not_fit(q: PendingQuestion, i: int, j: int)
    ensures
        is_first_misfit(q, i) ==> 0 <= i < q.options@.len() && !callback_fits(
            q.short_qid@,
            i as nat,
        ),
        is_first_misfit(q, i) && 0 <= j < i ==> callback_fits(q.short_qid@, j as nat),
        0 <= j < q.options@.len() && !callback_fits(q.short_qid@, j as nat) ==> exists|k: int|
            k <= j && #[trigger] is_first_misfit(q, k),
    decreases j,
{
    if 0 <= j < q.options@.len() && !callback_fits(q.short_qid@, j as nat) && !is_first_misfit(
        q,
        j,
    ) {
        let k = choose|k: int| 0 <= k < j && !#[trigger] callback_fits(q.short_qid@, k as nat);
        law_refused_choice_is_the_first_that_does_not_fit(q, i, k);
    }
}

/// The first twenty-six choices have the letters A to Z, each later one that of the choice
/// twenty-six before it, and after 256 choices the letters start anew.
pub proof fn law_choices_are_lettered_in_order(i: int)
    requires
        i >= 0,
    ensures
        i < 26 ==> choice_letter(i) as u32 == 'A' as u32 + i,
        i + 26 < 256 ==> choice_letter(i + 26) == choice_letter(i),
        choice_letter(i + 256) == choice_letter(i),
{
    assert((i + 256) % 256 == i % 256);
}

/// One option with a dollar sign makes a question one with math, and nothing else does.
pub proof fn law_math_is_a_dollar_sign_in_an_option(options: Seq<String>, option: String)
    ensures
        !any_math(Seq::empty()),
        any_math(options.push(option)) <==> any_math(options) || exists|k: int|
            0 <= k < option@.len() && #[trigger] option@[k] == '$',
{
    let more = options.push(option);
    if any_math(options) {
        let i = choose|i: int| 0 <= i < options.len() && (#[trigger] options[i])@.contains('$');
        assert(more[i]@.contains('$'));
    }
    if option@.contains('$') {
        assert(more[options.len() as int]@.contains('$'));
    }
    if exists|k: int| 0 <= k < option@.len() && #[trigger] option@[k] == '$' {
        assert(option@.contains('$'));
    }
    if any_math(more) {
        let i = choose|i: int| 0 <= i < more.len() && (#[trigger] more[i])@.contains('$');
        if i < options.len() {
            assert(options[i]@.contains('$'));
        } else {
            let k = option@.index_of('$');
            assert(option@[k] == '$');
        }
    }
}

/// Where no option holds a dollar sign, the message is the front alone and the text on
/// each button is its option, character for character.
pub proof fn law_plain_options_stand_on_their_buttons(q: PendingQuestion, i: int)
    requires
        forall|k: int| 0 <= k < q.options@.len() ==> !(#[trigger] q.options@[k])@.contains('$'),
        0 <= i < q.options@.len(),
    ensures
        question_markdown(q) == q.front@,
        keyboard(q).len() == q.options@.len(),
        keyboard(q)[i].items() matches Some(row) && row.len() == 1 && row[0].text_at("text"@)
            == Some(q.options@[i]@),
{
    reveal_strlit("text");
    reveal_strlit("callback_data");
    assert("text"@.len() != "callback_data"@.len());
}

/// Where an option holds a dollar sign, the message is the front and after it, for each
/// option, an empty line, its letter, a bracket, a blank and the option unchanged; the
/// letters stand on the buttons.
pub proof fn law_math_options_are_listed_with_letters(q: PendingQuestion, i: int, m: int)
    requires
        0 <= m < q.options@.len(),
        q.options@[m]@.contains('$'),
        0 <= i < q.options@.len(),
    ensures
        question_markdown(q) == q.front@ + Seq::new(
            q.options@.len(),
            |k: int| seq!['\n', '\n', choice_letter(k), ')', ' '] + q.options@[k]@,
        ).flatten(),
        keyboard(q).len() == q.options@.len(),
        keyboard(q)[i].items() matches Some(row) && row.len() == 1 && row[0].text_at("text"@)
            == Some(seq![choice_letter(i)]),
{
    reveal_strlit("text");
    reveal_strlit("callback_data");
    assert("text"@.len() != "callback_data"@.len());
    lemma_lettered_is_flat(q.options@, q.options@.len());
}

/// The lettered options are their paragraphs, one behind the other.
proof fn lemma_lettered_is_flat(options: Seq<String>, n: nat)
    ensures
        lettered(options, n) == Seq::new(
            n,
            |k: int| seq!['\n', '\n', choice_letter(k), ')', ' '] + options[k]@,
        ).flatten(),
    decreases n,
{
    reveal_strlit("\n\n");
    reveal_strlit(") ");
    let f = |k: int| seq!['\n', '\n', choice_letter(k), ')', ' '] + options[k]@;
    let all = Seq::new(n, f);
    if n > 0 {
        let m = (n - 1) as nat;
        lemma_lettered_is_flat(options, m);
        all.lemma_flatten_and_flatten_alt_are_equivalent();
        all.drop_last().lemma_flatten_and_flatten_alt_are_equivalent();
        assert(all.drop_last() =~= Seq::new(m, f));
        assert(paragraph(options, m as int) =~= f(m as int));
    }
}

/// Each row of the keyboard is one button with its text and its data, and no more.
pub proof fn law_rows_are_single_buttons(q: PendingQuestion, i: int, key: Seq<char>)
    requires
        0 <= i < q.options@.len(),
    ensures
        keyboard(q)[i] matches Json::List(row) && row.len() == 1 && row[0] is Object
            && row[0].member(key) == (if key == "text"@ {
            Some(Json::Text(button_label(q, i)))
        } else if key == "callback_data"@ {
            Some(Json::Text(callback_text(q.short_qid@, i as nat)))
        } else {
            None
        }),
{
    reveal_strlit("text");
    reveal_strlit("callback_data");
    assert("text"@.len() != "callback_data"@.len());
}

/// The body of a question holds the chat, the message, the keyboard and, where it goes to
/// a topic, the topic; and no more.
pub proof fn law_question_body_holds_what_it_should(
    chat_id: Seq<char>,
    thread_id: Option<Seq<char>>,
    q: PendingQuestion,
    key: Seq<char>,
    inner: Seq<char>,
)
    ensures
        ({
            let body = question_body(chat_id, thread_id, q);
            &&& body is Object
            &&& body.member(key) is Some <==> key == "chat_id"@ || key == "rich_message"@ || key
                == "reply_markup"@ || (key == "message_thread_id"@ && thread_id is Some)
            &&& body.member("chat_id"@) == Some(Json::Text(chat_id))
            &&& thread_id matches Some(id) ==> body.member("message_thread_id"@) == Some(
                Json::Text(id),
            )
            &&& body.member("rich_message"@) matches Some(message) && message is Object
                && message.member(inner) == (if inner == "markdown"@ {
                Some(Json::Text(question_markdown(q)))
            } else {
                None
            })
            &&& body.member("reply_markup"@) matches Some(markup) && markup is Object
                && markup.member(inner) == (if inner == "inline_keyboard"@ {
                Some(Json::List(keyboard(q)))
            } else {
                None
            })
        }),
{
    reveal_strlit("chat_id");
    reveal_strlit("rich_message");
    reveal_strlit("reply_markup");
    reveal_strlit("message_thread_id");
    assert("chat_id"@.len() == 7);
    assert("message_thread_id"@.len() == 17);
    assert("rich_message"@.len() == 12);
    assert("reply_markup"@.len() == 12);
    assert("rich_message"@[1] == 'i');
    assert("reply_markup"@[1] == 'e');
}

/// The address of the bridge is the given one without the slashes at its end.
pub proof fn law_only_closing_slashes_are_cut_off(base: Seq<char>, slashes: Seq<char>)
    requires
        base.len() > 0 ==> base.last() != '/',
        forall|i: int| 0 <= i < slashes.len() ==> #[trigger] slashes[i] == '/',
    ensures
        base_of(base + slashes) == base,
{
    law_trimming_a_character_leaves_the_rest(base, '/', slashes);
}

/// Both addresses start with that of the app; the poll says for how long it waits, so that
/// different waits have different addresses.
pub proof fn law_addresses_start_at_the_app(base: Seq<char>, wait: u64, other: u64)
    ensures
        next_address(base, wait).len() == base.len() + 31 + decimal(wait as nat).len(),
        next_address(base, wait).take(base.len() as int) == base,
        next_address(base, wait).subrange(base.len() as int, base.len() as int + 31)
            == "/bridge/v1/next?worker=tg&wait="@,
        next_address(base, wait).skip(base.len() as int + 31) == decimal(wait as nat),
        next_address(base, wait) == next_address(base, other) ==> wait == other,
        answer_address(base).take(base.len() as int) == base,
        answer_address(base).skip(base.len() as int) == "/bridge/v1/answer"@,
{
    reveal_strlit("/bridge/v1/next?worker=tg&wait=");
    assert("/bridge/v1/next?worker=tg&wait="@.len() == 31);
    let n = base.len() as int;
    assert(next_address(base, wait).take(n) =~= base);
    assert(next_address(base, wait).subrange(n, n + 31) =~= "/bridge/v1/next?worker=tg&wait="@);
    assert(next_address(base, wait).skip(n + 31) =~= decimal(wait as nat));
    assert(next_address(base, other).skip(n + 31) =~= decimal(other as nat));
    lemma_decimal(wait as nat);
    lemma_decimal(other as nat);
    assert(answer_address(base).take(n) =~= base);
    assert(answer_address(base).skip(n) =~= "/bridge/v1/answer"@);
}

/// An answer says which question it answers, how, and what was answered, unchanged; and no
/// more.
pub proof fn law_answers_are_posted_as_given(
    short_qid: Seq<char>,
    kind: AnswerKind,
    value: Seq<char>,
    key: Seq<char>,
)
    ensures
        answer_json(short_qid, kind, value) is Object,
        answer_json(short_qid, kind, value).member(key) == (if key == "short_qid"@ {
            Some(Json::Text(short_qid))
        } else if key == "kind"@ {
            Some(
                Json::Text(
                    if kind == AnswerKind::Tap {
                        "tap"@
                    } else {
                        "text"@
                    },
                ),
            )
        } else if key == "value"@ {
            Some(Json::Text(value))
        } else {
            None
        }),
{
    reveal_strlit("short_qid");
    reveal_strlit("kind");
    reveal_strlit("value");
    assert("short_qid"@.len() == 9);
    assert("kind"@.len() == 4);
    assert("value"@.len() == 5);
}

/// A status is good where its first digit is a two, and 204 alone says that there is
/// nothing.
pub proof fn law_good_statuses_are_the_two_hundreds(status: u16)
    ensures
        next_meaning(status) is Some <==> status / 100 == 2,
        next_meaning(status) == Some(NextReply::Nothing) <==> status == 204,
        answer_taken(status) <==> status / 100 == 2,
{
}

/// An error in words ends in the status that came, and a refused choice is told with its
/// data and its size.
pub proof fn law_errors_tell_what_came(status: String, data: String, bytes: usize)
    ensures
        bridge_error_text(BridgeError::NextStatus { status }) == "bridge /next HTTP "@ + status@,
        bridge_error_text(BridgeError::AnswerStatus { status }) == "bridge /answer HTTP "@ + status@,
        bridge_error_text(BridgeError::CallbackDataTooLong { data, bytes }) == "callback_data "@ + (
        debug_text(data@) + (" is "@ + (decimal(bytes as nat)
            + " bytes, over Telegram's 64-byte limit"@))),
{
    assert(bridge_error_text(BridgeError::CallbackDataTooLong { data, bytes }) =~= "callback_data "@
        + (debug_text(data@) + (" is "@ + (decimal(bytes as nat)
        + " bytes, over Telegram's 64-byte limit"@))));
}

} // verus!
