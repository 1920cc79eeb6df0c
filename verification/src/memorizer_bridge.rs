//! Memorizer bridge: quiz questions rendered with inline buttons, and their taps.
//!
//! A pending question is rendered into the deck's forum topic as a message with one
//! inline button per option; a tap comes back as the button's `callback_data`, with a
//! `memq:` prefix, and is posted as the answer. Nothing is scheduled or graded here.

use crate::decimal::{decimal, parse_usize, parsed_usize, push_decimal};
use crate::json::{items_of, json_of, list_value, object_value, set_member, text_value, Json};
use crate::text::{after_prefix, cut_last, debug_text, only, quoted, rsplit_once, str_view, strip_prefix, trim_end_of, trimmed_end_of};
use serde_json::Value;
use vstd::prelude::*;
use vstd::utf8::encode_utf8;

verus! {

/// Prefix on inline-button `callback_data` for memorizer taps. Distinct from the
/// approval flow's `approval:` prefix so that a router never confuses them.
pub const MEMQ_PREFIX: &'static str = "memq:";

/// Telegram's hard limit on inline-button `callback_data` (bytes).
pub const CALLBACK_DATA_MAX: usize = 64;

/// A pending quiz question pulled from the app's `/bridge/v1/next`.
#[derive(Debug, Clone, PartialEq, Eq)]
pub struct PendingQuestion {
    pub short_qid: String,
    pub deck_id: String,
    pub qtype: String,
    pub front: String,
    pub options: Vec<String>,
}

/// A decoded `memq:` inline-button tap.
#[derive(Debug, Clone, PartialEq, Eq)]
pub struct MemqTap {
    pub short_qid: String,
    pub choice_idx: usize,
}

/// A tap, as a mathematical value.
pub struct Tap {
    pub short_qid: Seq<char>,
    pub choice_idx: usize,
}

impl View for MemqTap {
    type V = Tap;

    open spec fn view(&self) -> Tap {
        Tap { short_qid: self.short_qid@, choice_idx: self.choice_idx }
    }
}

/// How the bridge can fail.
#[derive(Debug, Clone, PartialEq, Eq)]
pub enum BridgeError {
    /// The `callback_data` of a button is longer than Telegram takes.
    CallbackDataTooLong { data: String, bytes: usize },
    /// `/bridge/v1/next` answered with this status.
    NextStatus { status: String },
    /// `/bridge/v1/answer` answered with this status.
    AnswerStatus { status: String },
}

/// The error in words.
pub open spec fn bridge_error_text(e: BridgeError) -> Seq<char> {
    match e {
        BridgeError::CallbackDataTooLong { data, bytes } => "callback_data "@ + debug_text(data@)
            + " is "@ + decimal(bytes as nat) + " bytes, over Telegram's 64-byte limit"@,
        BridgeError::NextStatus { status } => "bridge /next HTTP "@ + status@,
        BridgeError::AnswerStatus { status } => "bridge /answer HTTP "@ + status@,
    }
}

impl BridgeError {
    /// The error in words.
    pub fn message(&self) -> (r: String)
        ensures
            r@ == bridge_error_text(*self),
    {
        match self {
            BridgeError::CallbackDataTooLong { data, bytes } => {
                let mut s = "callback_data ".to_owned();
                s.append(quoted(data.as_str()).as_str());
                s.append(" is ");
                push_decimal(&mut s, *bytes as u64);
                s.append(" bytes, over Telegram's 64-byte limit");
                s
            },
            BridgeError::NextStatus { status } => {
                let mut s = "bridge /next HTTP ".to_owned();
                s.append(status.as_str());
                s
            },
            BridgeError::AnswerStatus { status } => {
                let mut s = "bridge /answer HTTP ".to_owned();
                s.append(status.as_str());
                s
            },
        }
    }
}

// ---------------------------------------------------------------------------
// Callback data
// ---------------------------------------------------------------------------

/// The `callback_data` for choice `idx` of a question.
pub open spec fn callback_text(short_qid: Seq<char>, idx: nat) -> Seq<char> {
    MEMQ_PREFIX@ + short_qid + seq![':'] + decimal(idx)
}

/// The tap that a `callback_data` stands for: after the prefix a question id, which is
/// not empty, then the last colon and the index of the choice.
pub open spec fn tap_in(data: Seq<char>) -> Option<Tap> {
    match after_prefix(data, MEMQ_PREFIX@) {
        None => None,
        Some(rest) => match cut_last(rest, ':') {
            None => None,
            Some((short_qid, idx)) => if short_qid.len() == 0 {
                None
            } else {
                match parsed_usize(idx) {
                    Some(choice_idx) => Some(Tap { short_qid, choice_idx }),
                    None => None,
                }
            },
        },
    }
}

/// Parse a `memq:<short_qid>:<idx>` callback into its parts. Returns `None` for
/// any non-memq or malformed payload, so it can be tried alongside the approval
/// parser without stealing its taps.
pub fn parse_memq_callback(cb_data: &str) -> (r: Option<MemqTap>)
    ensures
        (match r {
            Some(t) => Some(t@),
            None => None,
        }) == tap_in(cb_data@),
{
    let rest = match strip_prefix(cb_data, MEMQ_PREFIX) {
        Some(rest) => rest,
        None => {
            return None;
        },
    };
    match rsplit_once(rest, ':') {
        Some((short_qid, idx)) => {
            if short_qid.is_empty() {
                return None;
            }
            match parse_usize(idx) {
                Some(choice_idx) => Some(MemqTap { short_qid: short_qid.to_owned(), choice_idx }),
                None => None,
            }
        },
        None => None,
    }
}

/// Build the `callback_data` for choice `idx` of `short_qid`.
pub fn memq_callback_data(short_qid: &str, idx: usize) -> (r: String)
    ensures
        r@ == callback_text(short_qid@, idx as nat),
{
    let mut s = MEMQ_PREFIX.to_owned();
    s.append(short_qid);
    s.push(':');
    assert(s@ =~= MEMQ_PREFIX@ + short_qid@ + seq![':']);
    push_decimal(&mut s, idx as u64);
    s
}

// ---------------------------------------------------------------------------
// The question as a message
// ---------------------------------------------------------------------------

/// The letter of choice `idx`: A to Z, over and over. The count starts anew after
/// every 256 choices.
pub open spec fn choice_letter(idx: int) -> char {
    ('A' as u32 + (idx % 256) % 26) as char
}

/// The letter of choice `idx`.
fn letter_for(idx: usize) -> (r: char)
    ensures
        r == choice_letter(idx as int),
{
    (65 + ((idx % 256) % 26) as u8) as char
}

/// Whether any option carries math, which a button label cannot show.
pub open spec fn any_math(options: Seq<String>) -> bool {
    exists|i: int| 0 <= i < options.len() && (#[trigger] options[i])@.contains('$')
}

/// Whether the `callback_data` of choice `idx` is within Telegram's limit.
pub open spec fn callback_fits(short_qid: Seq<char>, idx: nat) -> bool {
    encode_utf8(callback_text(short_qid, idx)).len() <= CALLBACK_DATA_MAX
}

/// Whether choice `idx` is the first whose `callback_data` is over Telegram's limit.
pub open spec fn is_first_misfit(q: PendingQuestion, idx: int) -> bool {
    &&& 0 <= idx < q.options@.len()
    &&& !callback_fits(q.short_qid@, idx as nat)
    &&& forall|j: int| 0 <= j < idx ==> #[trigger] callback_fits(q.short_qid@, j as nat)
}

/// Option `idx` as a paragraph of its own, after its letter.
pub open spec fn paragraph(options: Seq<String>, idx: int) -> Seq<char> {
    "\n\n"@ + seq![choice_letter(idx)] + ") "@ + options[idx]@
}

/// The first `n` options as lettered paragraphs.
pub open spec fn lettered(options: Seq<String>, n: nat) -> Seq<char>
    decreases n,
{
    if n == 0 {
        Seq::empty()
    } else {
        lettered(options, (n - 1) as nat) + paragraph(options, n - 1)
    }
}

/// The text of the message: the front as it is, and the options after it where they
/// carry math.
pub open spec fn question_markdown(q: PendingQuestion) -> Seq<char> {
    if any_math(q.options@) {
        q.front@ + lettered(q.options@, q.options@.len())
    } else {
        q.front@
    }
}

/// What stands on the button of choice `idx`.
pub open spec fn button_label(q: PendingQuestion, idx: int) -> Seq<char> {
    if any_math(q.options@) {
        seq![choice_letter(idx)]
    } else {
        q.options@[idx]@
    }
}

/// A row of one button.
pub open spec fn button_row(label: Seq<char>, data: Seq<char>) -> Json {
    Json::List(
        seq![
            Json::Object(map!["text"@ => Json::Text(label), "callback_data"@ => Json::Text(data)]),
        ],
    )
}

/// One row for each choice, in their order.
pub open spec fn keyboard(q: PendingQuestion) -> Seq<Json> {
    Seq::new(
        q.options@.len(),
        |i: int| button_row(button_label(q, i), callback_text(q.short_qid@, i as nat)),
    )
}

/// The `sendRichMessage` body for a question.
pub open spec fn question_body(
    chat_id: Seq<char>,
    thread_id: Option<Seq<char>>,
    q: PendingQuestion,
) -> Json {
    let body = map![
        "chat_id"@ => Json::Text(chat_id),
        "rich_message"@ => Json::Object(map!["markdown"@ => Json::Text(question_markdown(q))]),
        "reply_markup"@ => Json::Object(map!["inline_keyboard"@ => Json::List(keyboard(q))]),
    ];
    Json::Object(
        match thread_id {
            Some(id) => body.insert("message_thread_id"@, Json::Text(id)),
            None => body,
        },
    )
}

/// Whether any option holds a `$`.
fn options_have_math(options: &Vec<String>) -> (r: bool)
    ensures
        r == any_math(options@),
{
    let mut i: usize = 0;
    while i < options.len()
        invariant
            i <= options@.len(),
            forall|j: int| 0 <= j < i ==> !(#[trigger] options@[j])@.contains('$'),
        decreases options@.len() - i,
    {
        let cs = crate::text::chars_of(options[i].as_str());
        let mut k: usize = 0;
        while k < cs.len()
            invariant
                k <= cs@.len(),
                i < options@.len(),
                cs@ == options@[i as int]@,
                forall|j: int| 0 <= j < k ==> cs@[j] != '$',
            decreases cs@.len() - k,
        {
            if cs[k] == '$' {
                assert(options@[i as int]@.contains('$'));
                return true;
            }
            k = k + 1;
        }
        i = i + 1;
    }
    false
}

/// A row of one button.
fn build_button_row(label: &str, data: &str) -> (r: Value)
    ensures
        json_of(r) == button_row(label@, data@),
{
    let mut button = object_value();
    set_member(&mut button, "text", text_value(label));
    set_member(&mut button, "callback_data", text_value(data));
    let mut row: Vec<Value> = Vec::new();
    row.push(button);
    assert(items_of(row@) =~= seq![json_of(button)]);
    list_value(row)
}

/// Build a `sendRichMessage` body for a multiple-choice question. The front is
/// rendered as markdown so the agent's **bold** framing and any `$…$` LaTeX both
/// typeset. When an option contains math, options are listed in the body with
/// A/B/C buttons (button labels can't render LaTeX); otherwise the option text
/// sits on the button. `callback_data` carries the option index either way.
/// `thread_id` targets the deck's forum topic.
pub fn build_rich_mc_send_body(chat_id: &str, thread_id: Option<&str>, q: &PendingQuestion) -> (r:
    Result<Value, BridgeError>)
    ensures
        match r {
            Ok(body) => {
                &&& forall|i: int|
                    0 <= i < q.options@.len() ==> #[trigger] callback_fits(q.short_qid@, i as nat)
                &&& json_of(body) == question_body(chat_id@, str_view(thread_id), *q)
            },
            Err(e) => {
                &&& e matches BridgeError::CallbackDataTooLong { data, bytes }
                &&& bytes == encode_utf8(data@).len()
                &&& exists|i: int| #[trigger]
                    is_first_misfit(*q, i) && data@ == callback_text(q.short_qid@, i as nat)
            },
        },
{
    let math = options_have_math(&q.options);
    let n: usize = q.options.len();
    let mut md = q.front.clone();
    let mut rows: Vec<Value> = Vec::new();
    let mut idx: usize = 0;
    assert(md@ + lettered(q.options@, 0) =~= q.front@);
    while idx < n
        invariant
            idx <= n == q.options@.len(),
            math == any_math(q.options@),
            md@ == (if math {
                q.front@ + lettered(q.options@, idx as nat)
            } else {
                q.front@
            }),
            items_of(rows@) =~= keyboard(*q).take(idx as int),
            forall|j: int| 0 <= j < idx ==> #[trigger] callback_fits(q.short_qid@, j as nat),
        decreases n - idx,
    {
        let data = memq_callback_data(q.short_qid.as_str(), idx);
        let bytes: usize = data.as_str().as_bytes().len();
        if bytes > CALLBACK_DATA_MAX {
            assert(is_first_misfit(*q, idx as int));
            return Err(BridgeError::CallbackDataTooLong { data, bytes });
        }
        let ghost prev = rows@;
        let label = if math {
            let letter = letter_for(idx);
            let mut s = String::new();
            s.push(letter);
            assert(s@ =~= seq![letter]);
            md.append("\n\n");
            md.append(s.as_str());
            md.append(") ");
            md.append(q.options[idx].as_str());
            assert(md@ =~= q.front@ + lettered(q.options@, (idx + 1) as nat));
            s
        } else {
            q.options[idx].clone()
        };
        let row = build_button_row(label.as_str(), data.as_str());
        rows.push(row);
        idx = idx + 1;
        assert(items_of(rows@) =~= items_of(prev).push(json_of(row)));
    }
    assert(keyboard(*q).take(n as int) =~= keyboard(*q));
    let mut message = object_value();
    set_member(&mut message, "markdown", text_value(md.as_str()));
    let mut markup = object_value();
    set_member(&mut markup, "inline_keyboard", list_value(rows));
    let mut body = object_value();
    set_member(&mut body, "chat_id", text_value(chat_id));
    set_member(&mut body, "rich_message", message);
    set_member(&mut body, "reply_markup", markup);
    if let Some(id) = thread_id {
        set_member(&mut body, "message_thread_id", text_value(id));
    }
    Ok(body)
}

// ---------------------------------------------------------------------------
// The app's side of the bridge
// ---------------------------------------------------------------------------

/// How the user answered a question.
#[derive(Debug, Clone, Copy, PartialEq, Eq, Structural)]
pub enum AnswerKind {
    Tap,
    Text,
}

impl AnswerKind {
    /// The name of the kind on the wire.
    pub fn as_str(self) -> (r: &'static str)
        ensures
            r@ == self.wire_name(),
    {
        match self {
            AnswerKind::Tap => "tap",
            AnswerKind::Text => "text",
        }
    }

    /// The name of the kind on the wire.
    pub open spec fn wire_name(self) -> Seq<char> {
        match self {
            AnswerKind::Tap => "tap"@,
            AnswerKind::Text => "text"@,
        }
    }
}

/// What a good status of `/bridge/v1/next` says.
#[derive(Debug, Clone, Copy, PartialEq, Eq, Structural)]
pub enum NextReply {
    /// There is no pending question.
    Nothing,
    /// The body holds the envelope of a question.
    Envelope,
}

/// Where the memorizer app is reached, and with which token.
pub struct HttpBridgeTransport {
    base_url: String,
    bearer: String,
}

/// `url` without the slashes at its end.
pub open spec fn base_of(url: Seq<char>) -> Seq<char> {
    trimmed_end_of(url, only('/'))
}

/// Where the app at `base` is polled for the next question.
pub open spec fn next_address(base: Seq<char>, wait_secs: u64) -> Seq<char> {
    base + "/bridge/v1/next?worker=tg&wait="@ + decimal(wait_secs as nat)
}

/// Where an answer is posted to the app at `base`.
pub open spec fn answer_address(base: Seq<char>) -> Seq<char> {
    base + "/bridge/v1/answer"@
}

impl HttpBridgeTransport {
    /// The address in front of every path.
    pub closed spec fn base(self) -> Seq<char> {
        self.base_url@
    }

    /// The bearer token.
    pub closed spec fn token(self) -> Seq<char> {
        self.bearer@
    }

    /// The bridge at `base_url`, whose closing slashes do not count.
    pub fn new(base_url: &str, bearer: &str) -> (r: Self)
        ensures
            r.base() == base_of(base_url@),
            r.token() == bearer@,
    {
        HttpBridgeTransport {
            base_url: trim_end_of(base_url, '/').to_owned(),
            bearer: bearer.to_owned(),
        }
    }

    /// The same token at another address.
    pub fn with_base_url(self, url: &str) -> (r: Self)
        ensures
            r.base() == base_of(url@),
            r.token() == self.token(),
    {
        HttpBridgeTransport {
            base_url: trim_end_of(url, '/').to_owned(),
            bearer: self.bearer,
        }
    }

    /// The bearer token.
    pub fn bearer(&self) -> (r: &str)
        ensures
            r@ == self.token(),
    {
        self.bearer.as_str()
    }

    /// Where to poll for the next question, waiting for `wait_secs`.
    pub fn next_url(&self, wait_secs: u64) -> (r: String)
        ensures
            r@ == next_address(self.base(), wait_secs),
    {
        let mut s = self.base_url.clone();
        s.append("/bridge/v1/next?worker=tg&wait=");
        push_decimal(&mut s, wait_secs);
        s
    }

    /// Where to post an answer.
    pub fn answer_url(&self) -> (r: String)
        ensures
            r@ == answer_address(self.base()),
    {
        let mut s = self.base_url.clone();
        s.append("/bridge/v1/answer");
        s
    }
}

/// The body of an answer.
pub open spec fn answer_json(short_qid: Seq<char>, kind: AnswerKind, value: Seq<char>) -> Json {
    Json::Object(
        map![
            "short_qid"@ => Json::Text(short_qid),
            "kind"@ => Json::Text(kind.wire_name()),
            "value"@ => Json::Text(value),
        ],
    )
}

/// What a status of `/bridge/v1/next` says, where it is a good one.
pub open spec fn next_meaning(status: u16) -> Option<NextReply> {
    if status < 200 || status >= 300 {
        None
    } else if status == 204 {
        Some(NextReply::Nothing)
    } else {
        Some(NextReply::Envelope)
    }
}

/// Whether a status of `/bridge/v1/answer` says that the answer was taken.
pub open spec fn answer_taken(status: u16) -> bool {
    200 <= status < 300
}

/// The body of an answer.
pub fn answer_body(short_qid: &str, kind: AnswerKind, value: &str) -> (r: Value)
    ensures
        json_of(r) == answer_json(short_qid@, kind, value@),
{
    let mut body = object_value();
    set_member(&mut body, "short_qid", text_value(short_qid));
    set_member(&mut body, "kind", text_value(kind.as_str()));
    set_member(&mut body, "value", text_value(value));
    body
}

/// What the status of `/bridge/v1/next` means; `shown` is the status in words.
pub fn next_reply(status: u16, shown: &str) -> (r: Result<NextReply, BridgeError>)
    ensures
        (match r {
            Ok(reply) => Some(reply),
            Err(_) => None,
        }) == next_meaning(status),
        match r {
            Ok(reply) => {
                &&& 200 <= status < 300
                &&& reply == (if status == 204 {
                    NextReply::Nothing
                } else {
                    NextReply::Envelope
                })
            },
            Err(e) => {
                &&& !(200 <= status < 300)
                &&& e matches BridgeError::NextStatus { status: s }
                &&& s@ == shown@
            },
        },
{
    if status == 204 {
        return Ok(NextReply::Nothing);
    }
    if status < 200 || status >= 300 {
        return Err(BridgeError::NextStatus { status: shown.to_owned() });
    }
    Ok(NextReply::Envelope)
}

/// What the status of `/bridge/v1/answer` means; `shown` is the status in words.
pub fn answer_reply(status: u16, shown: &str) -> (r: Result<(), BridgeError>)
    ensures
        r is Ok <==> answer_taken(status),
        match r {
            Ok(()) => 200 <= status < 300,
            Err(e) => {
                &&& !(200 <= status < 300)
                &&& e matches BridgeError::AnswerStatus { status: s }
                &&& s@ == shown@
            },
        },
{
    if status < 200 || status >= 300 {
        return Err(BridgeError::AnswerStatus { status: shown.to_owned() });
    }
    Ok(())
}

} // verus!
