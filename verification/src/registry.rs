//! The registry of forum topics: `chat_id -> thread_id -> entry`.
//!
//! Telegram omits the topic name on ordinary messages and has no list-all
//! endpoint, so the registry is the local source of truth, updated from commands
//! and from observed service events.

use crate::events::{Event, ForumServiceEvent};
use crate::str_map::{ascending, StrMap};
use crate::text::{before, first_place, folded, lemma_before_asymmetric, lemma_before_irreflexive, string_view, to_lower_case, trim, trimmed};
use vstd::prelude::*;

verus! {

/// File name (under the channel state/workspace dir) for the persisted registry.
pub const TELEGRAM_TOPICS_STATE_FILE: &'static str = "telegram-topics.json";

/// Open/closed state of a forum topic, mirrored from Telegram service events.
#[derive(Debug, Clone, Copy, PartialEq, Eq, Structural)]
pub enum TopicStatus {
    Open,
    Closed,
}

impl Default for TopicStatus {
    fn default() -> (r: Self)
        ensures
            r == TopicStatus::Open,
    {
        TopicStatus::Open
    }
}

/// A single forum topic's persisted metadata.
#[derive(Debug, PartialEq, Eq)]
pub struct TopicEntry {
    pub name: String,
    pub status: TopicStatus,
    pub purpose: Option<String>,
    pub created_at: u64,
    pub updated_at: u64,
}

/// A topic's metadata, as a mathematical value.
#[verifier::ext_equal]
pub struct Topic {
    pub name: Seq<char>,
    pub status: TopicStatus,
    pub purpose: Option<Seq<char>>,
    pub created_at: u64,
    pub updated_at: u64,
}

impl View for TopicEntry {
    type V = Topic;

    open spec fn view(&self) -> Topic {
        Topic {
            name: self.name@,
            status: self.status,
            purpose: string_view(self.purpose),
            created_at: self.created_at,
            updated_at: self.updated_at,
        }
    }
}

impl Clone for TopicEntry {
    fn clone(&self) -> (r: Self)
        ensures
            r@ == self@,
    {
        TopicEntry {
            name: self.name.clone(),
            status: self.status,
            purpose: self.purpose.clone(),
            created_at: self.created_at,
            updated_at: self.updated_at,
        }
    }
}

/// The topics of one chat, by thread id.
pub type Topics = Map<Seq<char>, Topic>;

/// The topics of every chat, by chat id.
pub type Chats = Map<Seq<char>, Topics>;

/// The topics of `chat`: none where the chat is unknown.
pub open spec fn topics_in(chats: Chats, chat: Seq<char>) -> Topics {
    if chats.contains_key(chat) {
        chats[chat]
    } else {
        Map::empty()
    }
}

/// The topic `thread` of `chat`, if it is tracked.
pub open spec fn topic_at(chats: Chats, chat: Seq<char>, thread: Seq<char>) -> Option<Topic> {
    let topics = topics_in(chats, chat);
    if topics.contains_key(thread) {
        Some(topics[thread])
    } else {
        None
    }
}

/// The registry with `topic` as the topic `thread` of `chat`.
pub open spec fn with_topic(
    chats: Chats,
    chat: Seq<char>,
    thread: Seq<char>,
    topic: Topic,
) -> Chats {
    chats.insert(chat, topics_in(chats, chat).insert(thread, topic))
}

/// What a create makes of a topic: the name and the time are the new ones, the
/// topic is open, the time of creation stays, and so does the purpose unless a new
/// one comes along.
pub open spec fn created_topic(
    was: Option<Topic>,
    name: Seq<char>,
    purpose: Option<Seq<char>>,
    now: u64,
) -> Topic {
    match was {
        Some(t) => Topic {
            name,
            status: TopicStatus::Open,
            purpose: if purpose is Some {
                purpose
            } else {
                t.purpose
            },
            updated_at: now,
            ..t
        },
        None => Topic {
            name,
            status: TopicStatus::Open,
            purpose,
            created_at: now,
            updated_at: now,
        },
    }
}

/// The topic itself, or an open and nameless one where it is unknown.
pub open spec fn known_topic(was: Option<Topic>, now: u64) -> Topic {
    match was {
        Some(t) => t,
        None => Topic {
            name: Seq::empty(),
            status: TopicStatus::Open,
            purpose: None,
            created_at: now,
            updated_at: now,
        },
    }
}

/// The registry after a create.
pub open spec fn after_create(
    chats: Chats,
    chat: Seq<char>,
    thread: Seq<char>,
    name: Seq<char>,
    purpose: Option<Seq<char>>,
    now: u64,
) -> Chats {
    with_topic(
        chats,
        chat,
        thread,
        created_topic(topic_at(chats, chat, thread), name, purpose, now),
    )
}

/// The registry after a rename.
pub open spec fn after_rename(
    chats: Chats,
    chat: Seq<char>,
    thread: Seq<char>,
    name: Seq<char>,
    now: u64,
) -> Chats {
    let t = known_topic(topic_at(chats, chat, thread), now);
    with_topic(chats, chat, thread, Topic { name, updated_at: now, ..t })
}

/// The registry after a topic was closed or opened.
pub open spec fn after_status(
    chats: Chats,
    chat: Seq<char>,
    thread: Seq<char>,
    status: TopicStatus,
    now: u64,
) -> Chats {
    let t = known_topic(topic_at(chats, chat, thread), now);
    with_topic(chats, chat, thread, Topic { status, updated_at: now, ..t })
}

/// The registry after a service event.
pub open spec fn after_event(chats: Chats, chat: Seq<char>, event: Event, now: u64) -> Chats {
    match event {
        Event::Created { thread_id, name, .. } => after_create(
            chats,
            chat,
            thread_id,
            name,
            None,
            now,
        ),
        Event::Edited { thread_id, name } => match name {
            Some(n) => after_rename(chats, chat, thread_id, n, now),
            None => chats,
        },
        Event::Closed { thread_id } => after_status(
            chats,
            chat,
            thread_id,
            TopicStatus::Closed,
            now,
        ),
        Event::Reopened { thread_id } => after_status(
            chats,
            chat,
            thread_id,
            TopicStatus::Open,
            now,
        ),
    }
}

/// Whether the topic is called `name`, up to case and to white space around `name`.
pub open spec fn is_called(t: Topic, name: Seq<char>) -> bool {
    folded(t.name) == folded(trimmed(name))
}

/// Whether `thread` is what `name` resolves to: the first topic of that name in
/// the order of thread ids, if there is one.
pub open spec fn resolves_to(topics: Topics, name: Seq<char>, thread: Option<Seq<char>>) -> bool {
    match thread {
        Some(t) => {
            &&& topics.contains_key(t)
            &&& is_called(topics[t], name)
            &&& forall|u: Seq<char>|
                #[trigger] topics.contains_key(u) && is_called(topics[u], name) ==> !before(u, t)
        },
        None => forall|u: Seq<char>| #[trigger] topics.contains_key(u) ==> !is_called(topics[u], name),
    }
}

/// The topics that a list of rows stands for; of two rows of one thread id the later counts.
pub open spec fn topics_of_rows(rows: Seq<(String, TopicEntry)>) -> Topics
    decreases rows.len(),
{
    if rows.len() == 0 {
        Map::empty()
    } else {
        topics_of_rows(rows.drop_last()).insert(rows.last().0@, rows.last().1@)
    }
}

/// The thread ids of a list of rows.
pub open spec fn thread_ids(rows: Seq<(String, TopicEntry)>) -> Seq<Seq<char>> {
    rows.map_values(|r: (String, TopicEntry)| r.0@)
}

/// The chats that a list of rows stands for; of two rows of one chat id the later counts.
pub open spec fn chats_of_rows(rows: Seq<(String, Vec<(String, TopicEntry)>)>) -> Chats
    decreases rows.len(),
{
    if rows.len() == 0 {
        Map::empty()
    } else {
        chats_of_rows(rows.drop_last()).insert(rows.last().0@, topics_of_rows(rows.last().1@))
    }
}

/// The chat ids of a list of rows.
pub open spec fn chat_ids(rows: Seq<(String, Vec<(String, TopicEntry)>)>) -> Seq<Seq<char>> {
    rows.map_values(|r: (String, Vec<(String, TopicEntry)>)| r.0@)
}

/// name<->thread registry: `chat_id -> thread_id -> entry`.
#[derive(Debug, PartialEq, Eq)]
pub struct TopicRegistry {
    chats: StrMap<StrMap<TopicEntry>>,
}

/// The topics in a map of entries.
spec fn topics_of(m: StrMap<TopicEntry>) -> Topics {
    m@.map_values(|e: TopicEntry| e@)
}

impl View for TopicRegistry {
    type V = Chats;

    closed spec fn view(&self) -> Chats {
        self.chats@.map_values(|m: StrMap<TopicEntry>| topics_of(m))
    }
}

impl Default for TopicRegistry {
    fn default() -> (r: Self)
        ensures
            r@ == Map::<Seq<char>, Topics>::empty(),
    {
        let r = TopicRegistry { chats: StrMap::new() };
        assert(r@ =~= Map::<Seq<char>, Topics>::empty());
        r
    }
}

impl Clone for TopicRegistry {
    fn clone(&self) -> (r: Self)
        ensures
            r@ == self@,
    {
        let r = TopicRegistry { chats: self.chats.clone() };
        proof {
            assert forall|c: Seq<char>| self@.contains_key(c) implies #[trigger] r@[c]
                == self@[c] by {
                assert(cloned(self.chats@[c], r.chats@[c]));
                assert(r@[c] =~= self@[c]);
            }
            assert(r@ =~= self@);
        }
        r
    }
}

/// What rows stand for: every row's key is there, and each key comes from a row.
pub proof fn lemma_topics_of_rows(rows: Seq<(String, TopicEntry)>)
    ensures
        forall|k: Seq<char>|
            topics_of_rows(rows).contains_key(k) <==> #[trigger] thread_ids(rows).contains(k),
        ascending(thread_ids(rows)) ==> forall|i: int|
            0 <= i < rows.len() ==> topics_of_rows(rows)[(#[trigger] rows[i]).0@] == rows[i].1@,
    decreases rows.len(),
{
    if rows.len() > 0 {
        let front = rows.drop_last();
        let last = rows.last();
        lemma_topics_of_rows(front);
        assert(thread_ids(rows) =~= thread_ids(front).push(last.0@));
        assert forall|k: Seq<char>|
            topics_of_rows(rows).contains_key(k) <==> #[trigger] thread_ids(rows).contains(k) by {
            if thread_ids(front).contains(k) {
                let j = thread_ids(front).index_of(k);
                assert(thread_ids(rows)[j] == k);
            }
            if k == last.0@ {
                assert(thread_ids(rows)[rows.len() - 1] == k);
            }
            if thread_ids(rows).contains(k) {
                let j = thread_ids(rows).index_of(k);
                if j < rows.len() - 1 {
                    assert(thread_ids(front)[j] == k);
                }
            }
        }
        if ascending(thread_ids(rows)) {
            let ks = thread_ids(rows);
            assert(ascending(thread_ids(front))) by {
                assert forall|i: int, j: int| 0 <= i < j < front.len() implies before(
                    #[trigger] thread_ids(front)[i],
                    #[trigger] thread_ids(front)[j],
                ) by {
                    assert(before(ks[i], ks[j]));
                }
            }
            assert forall|i: int| 0 <= i < rows.len() implies topics_of_rows(rows)[(
            #[trigger] rows[i]).0@] == rows[i].1@ by {
                if i < rows.len() - 1 {
                    assert(front[i] == rows[i]);
                    assert(before(ks[i], ks[rows.len() - 1]));
                    lemma_before_irreflexive(last.0@);
                }
            }
        }
    }
}

impl TopicRegistry {
    /// Puts `entry` in the place of the topic `thread_id` of `chat_id`.
    fn put(&mut self, chat_id: &str, thread_id: &str, entry: TopicEntry)
        ensures
            final(self)@ == with_topic(old(self)@, chat_id@, thread_id@, entry@),
    {
        let mut topics = match self.chats.insert(chat_id.to_owned(), StrMap::new()) {
            Some(t) => t,
            None => StrMap::new(),
        };
        let ghost was = topics_of(topics);
        assert(was =~= topics_in(old(self)@, chat_id@));
        let _ = topics.insert(thread_id.to_owned(), entry);
        assert(topics_of(topics) =~= was.insert(thread_id@, entry@));
        let _ = self.chats.insert(chat_id.to_owned(), topics);
        assert(self@ =~= with_topic(old(self)@, chat_id@, thread_id@, entry@));
    }

    /// The topic `thread_id` of `chat_id`, if it is tracked.
    pub fn get(&self, chat_id: &str, thread_id: &str) -> (r: Option<&TopicEntry>)
        ensures
            (match r {
                Some(e) => Some(e@),
                None => None,
            }) == topic_at(self@, chat_id@, thread_id@),
    {
        match self.chats.get(chat_id) {
            Some(topics) => topics.get(thread_id),
            None => None,
        }
    }

    /// Insert or update a topic on create. Preserves `created_at` when the
    /// topic already exists; always bumps `updated_at`.
    pub fn upsert_created(
        &mut self,
        chat_id: &str,
        thread_id: &str,
        name: &str,
        purpose: Option<String>,
        now: u64,
    )
        ensures
            final(self)@ == after_create(
                old(self)@,
                chat_id@,
                thread_id@,
                name@,
                string_view(purpose),
                now,
            ),
    {
        let entry = match self.get(chat_id, thread_id) {
            Some(e) => TopicEntry {
                name: name.to_owned(),
                status: TopicStatus::Open,
                purpose: match purpose {
                    Some(p) => Some(p),
                    None => e.purpose.clone(),
                },
                created_at: e.created_at,
                updated_at: now,
            },
            None => TopicEntry {
                name: name.to_owned(),
                status: TopicStatus::Open,
                purpose,
                created_at: now,
                updated_at: now,
            },
        };
        self.put(chat_id, thread_id, entry);
    }

    /// The entry of a topic, or the one that stands in for an unknown topic.
    fn entry_or_placeholder(&self, chat_id: &str, thread_id: &str, now: u64) -> (r: TopicEntry)
        ensures
            r@ == known_topic(topic_at(self@, chat_id@, thread_id@), now),
    {
        match self.get(chat_id, thread_id) {
            Some(e) => e.clone(),
            None => TopicEntry {
                name: String::new(),
                status: TopicStatus::Open,
                purpose: None,
                created_at: now,
                updated_at: now,
            },
        }
    }

    /// Rename an existing topic (or create a placeholder if unknown).
    pub fn rename(&mut self, chat_id: &str, thread_id: &str, new_name: &str, now: u64)
        ensures
            final(self)@ == after_rename(old(self)@, chat_id@, thread_id@, new_name@, now),
    {
        let mut entry = self.entry_or_placeholder(chat_id, thread_id, now);
        entry.name = new_name.to_owned();
        entry.updated_at = now;
        self.put(chat_id, thread_id, entry);
    }

    /// Set a topic's open/closed status (or create a placeholder if unknown).
    pub fn set_status(&mut self, chat_id: &str, thread_id: &str, status: TopicStatus, now: u64)
        ensures
            final(self)@ == after_status(old(self)@, chat_id@, thread_id@, status, now),
    {
        let mut entry = self.entry_or_placeholder(chat_id, thread_id, now);
        entry.status = status;
        entry.updated_at = now;
        self.put(chat_id, thread_id, entry);
    }

    /// Apply a parsed forum service event to the registry.
    pub fn apply_event(&mut self, chat_id: &str, event: &ForumServiceEvent, now: u64)
        ensures
            final(self)@ == after_event(old(self)@, chat_id@, event@, now),
    {
        match event {
            ForumServiceEvent::Created { thread_id, name, .. } => {
                self.upsert_created(chat_id, thread_id.as_str(), name.as_str(), None, now);
            },
            ForumServiceEvent::Edited { thread_id, name } => {
                if let Some(name) = name {
                    self.rename(chat_id, thread_id.as_str(), name.as_str(), now);
                }
            },
            ForumServiceEvent::Closed { thread_id } => {
                self.set_status(chat_id, thread_id.as_str(), TopicStatus::Closed, now);
            },
            ForumServiceEvent::Reopened { thread_id } => {
                self.set_status(chat_id, thread_id.as_str(), TopicStatus::Open, now);
            },
        }
    }

    /// Resolve a topic name to its numeric `message_thread_id` within a chat.
    /// Case-insensitive on the name. Used at schedule-creation time so the
    /// delivery path only ever carries the resolved id.
    pub fn resolve_thread_id_by_name(&self, chat_id: &str, name: &str) -> (r: Option<String>)
        ensures
            resolves_to(topics_in(self@, chat_id@), name@, string_view(r)),
    {
        let topics = match self.chats.get(chat_id) {
            Some(t) => t,
            None => {
                return None;
            },
        };
        let ghost all = topics_of(*topics);
        assert(all == topics_in(self@, chat_id@));
        let n: usize = topics.len();
        let mut names: Vec<String> = Vec::new();
        let mut i: usize = 0;
        while i < n
            invariant
                i <= n == topics.keys().len(),
                names@.len() == i,
                all == topics_of(*topics),
                forall|j: int|
                    0 <= j < i ==> (#[trigger] names@[j])@ == folded(all[topics.keys()[j]].name),
            decreases n - i,
        {
            let (_, entry) = topics.at(i);
            names.push(to_lower_case(entry.name.as_str()));
            i = i + 1;
        }
        match first_place(names.as_slice(), to_lower_case(trim(name)).as_str()) {
            Some(i) => {
                let (thread_id, _) = topics.at(i);
                proof {
                    assert(names@[i as int]@ == folded(trimmed(name@)));
                    assert forall|u: Seq<char>| #[trigger]
                        all.contains_key(u) && is_called(all[u], name@) implies !before(
                        u,
                        thread_id@,
                    ) by {
                        assert(topics.keys().contains(u));
                        let j = topics.keys().index_of(u);
                        assert(topics.keys()[j] == u);
                        assert(names@[j]@ == folded(all[u].name));
                        if j > i {
                            assert(before(topics.keys()[i as int], topics.keys()[j]));
                            lemma_before_asymmetric(thread_id@, u);
                        }
                        lemma_before_irreflexive(u);
                    }
                }
                Some(thread_id.to_owned())
            },
            None => {
                proof {
                    assert forall|u: Seq<char>| #[trigger] all.contains_key(u) implies !is_called(
                        all[u],
                        name@,
                    ) by {
                        assert(topics.keys().contains(u));
                        let j = topics.keys().index_of(u);
                        assert(topics.keys()[j] == u);
                        assert(names@[j]@ == folded(all[u].name));
                    }
                }
                None
            },
        }
    }

    /// All topics for a chat, ordered by `thread_id`.
    pub fn list_for_chat(&self, chat_id: &str) -> (r: Vec<(String, TopicEntry)>)
        ensures
            topics_of_rows(r@) == topics_in(self@, chat_id@),
            ascending(thread_ids(r@)),
    {
        match self.chats.get(chat_id) {
            Some(topics) => rows_of(topics),
            None => Vec::new(),
        }
    }

    /// Every chat with its topics, in the order of chat ids and of thread ids.
    pub fn to_rows(&self) -> (r: Vec<(String, Vec<(String, TopicEntry)>)>)
        ensures
            chats_of_rows(r@) == self@,
            ascending(chat_ids(r@)),
            forall|i: int| 0 <= i < r@.len() ==> ascending(thread_ids((#[trigger] r@[i]).1@)),
    {
        let n: usize = self.chats.len();
        let ghost keys = self.chats.keys();
        let mut r: Vec<(String, Vec<(String, TopicEntry)>)> = Vec::new();
        let mut i: usize = 0;
        assert(chat_ids(r@) =~= keys.take(0));
        while i < n
            invariant
                i <= n == keys.len(),
                keys == self.chats.keys(),
                ascending(keys),
                chat_ids(r@) == keys.take(i as int),
                forall|j: int| 0 <= j < r@.len() ==> ascending(thread_ids((#[trigger] r@[j]).1@)),
                forall|c: Seq<char>|
                    chats_of_rows(r@).contains_key(c) <==> #[trigger] keys.take(i as int).contains(c),
                forall|c: Seq<char>|
                    #[trigger] chats_of_rows(r@).contains_key(c) ==> chats_of_rows(r@)[c]
                        == self@[c],
            decreases n - i,
        {
            let (chat_id, topics) = self.chats.at(i);
            let ghost prev = r@;
            let rows = rows_of(topics);
            let ghost these = topics_of_rows(rows@);
            assert(self@[chat_id@] == topics_of(*topics));
            r.push((chat_id.to_owned(), rows));
            i = i + 1;
            proof {
                assert(r@.drop_last() =~= prev);
                assert(chats_of_rows(r@) == chats_of_rows(prev).insert(chat_id@, these));
                assert forall|c: Seq<char>| #[trigger]
                    chats_of_rows(r@).contains_key(c) implies chats_of_rows(r@)[c] == self@[c] by {
                    if c != chat_id@ {
                        assert(chats_of_rows(prev).contains_key(c));
                    }
                }
                let now = keys.take(i as int);
                assert(now =~= keys.take(i - 1).push(chat_id@));
                assert(chat_ids(r@) =~= now);
                assert forall|c: Seq<char>|
                    chats_of_rows(r@).contains_key(c) <==> #[trigger] now.contains(c) by {
                    if keys.take(i - 1).contains(c) {
                        let j = keys.take(i - 1).index_of(c);
                        assert(now[j] == c);
                    }
                    if c == chat_id@ {
                        assert(now[i - 1] == c);
                    }
                    if now.contains(c) {
                        let j = now.index_of(c);
                        if j < i - 1 {
                            assert(keys.take(i - 1)[j] == c);
                        }
                    }
                }
            }
        }
        proof {
            assert(keys.take(n as int) =~= keys);
            assert forall|c: Seq<char>| #[trigger] chats_of_rows(r@).contains_key(c)
                <==> self@.contains_key(c) by {
                assert(keys.take(n as int).contains(c) <==> self.chats@.contains_key(c));
            }
            assert(chats_of_rows(r@) =~= self@);
        }
        r
    }

    /// The registry of the given rows; of two rows of one chat, or of one topic, the
    /// later counts.
    pub fn from_rows(rows: Vec<(String, Vec<(String, TopicEntry)>)>) -> (r: Self)
        ensures
            r@ == chats_of_rows(rows@),
    {
        let mut r = TopicRegistry::default();
        let mut i: usize = 0;
        while i < rows.len()
            invariant
                i <= rows@.len(),
                r@ == chats_of_rows(rows@.take(i as int)),
            decreases rows@.len() - i,
        {
            let mut topics: StrMap<TopicEntry> = StrMap::new();
            let inner = &rows[i].1;
            assert(topics_of(topics) =~= topics_of_rows(inner@.take(0)));
            let mut j: usize = 0;
            while j < inner.len()
                invariant
                    j <= inner@.len(),
                    topics_of(topics) == topics_of_rows(inner@.take(j as int)),
                decreases inner@.len() - j,
            {
                let ghost was = topics_of(topics);
                let entry = inner[j].1.clone();
                let ghost e = entry@;
                let _ = topics.insert(inner[j].0.clone(), entry);
                assert(topics_of(topics) =~= was.insert(inner@[j as int].0@, e));
                assert(inner@.take(j + 1).drop_last() =~= inner@.take(j as int));
                j = j + 1;
            }
            assert(inner@.take(j as int) =~= inner@);
            let ghost was = r@;
            let ghost now = topics_of(topics);
            let _ = r.chats.insert(rows[i].0.clone(), topics);
            assert(r@ =~= was.insert(rows@[i as int].0@, now));
            assert(rows@.take(i + 1).drop_last() =~= rows@.take(i as int));
            i = i + 1;
        }
        assert(rows@.take(i as int) =~= rows@);
        r
    }
}

/// The entries of a map as rows, in the order of thread ids.
fn rows_of(topics: &StrMap<TopicEntry>) -> (r: Vec<(String, TopicEntry)>)
    ensures
        topics_of_rows(r@) == topics_of(*topics),
        ascending(thread_ids(r@)),
{
    let n: usize = topics.len();
    let ghost keys = topics.keys();
    let mut r: Vec<(String, TopicEntry)> = Vec::new();
    let mut i: usize = 0;
    assert(thread_ids(r@) =~= keys.take(0));
    while i < n
        invariant
            i <= n == keys.len(),
            keys == topics.keys(),
            r@.len() == i,
            thread_ids(r@) == keys.take(i as int),
            forall|j: int|
                0 <= j < i ==> (#[trigger] r@[j]).1@ == topics_of(*topics)[r@[j].0@],
        decreases n - i,
    {
        let (thread_id, entry) = topics.at(i);
        let ghost prev = r@;
        r.push((thread_id.to_owned(), entry.clone()));
        i = i + 1;
        assert(thread_ids(r@) =~= thread_ids(prev).push(thread_id@));
        assert(keys.take(i as int) =~= keys.take(i - 1).push(thread_id@));
    }
    proof {
        assert(keys.take(n as int) =~= keys);
        lemma_topics_of_rows(r@);
        let m = topics_of_rows(r@);
        assert forall|k: Seq<char>| #[trigger] m.contains_key(k) <==> topics_of(
            *topics,
        ).contains_key(k) by {
            assert(thread_ids(r@).contains(k) <==> topics@.contains_key(k));
        }
        assert forall|k: Seq<char>| #[trigger] m.contains_key(k) implies m[k] == topics_of(
            *topics,
        )[k] by {
            assert(thread_ids(r@).contains(k));
            let j = thread_ids(r@).index_of(k);
            assert(thread_ids(r@)[j] == k);
            assert(r@[j].0@ == k);
        }
        assert(m =~= topics_of(*topics));
    }
    r
}

} // verus!
